//! What holds of the bridge in every state that its operations can reach.

use vstd::prelude::*;
use crate::access::key_argument;
use crate::cell::{lemma_stakes_none, LockState, Owner, Projection, Target};
use crate::descriptor::{Buffer, Getter, Method, Setter};
use crate::dispatch::{host_index_of, lemma_root_alive};
use crate::error::ErrorView;
use crate::info::lemma_stored_then_lookup;
use crate::machine::{lemma_step_wf, Step};
use crate::model::{lemma_drop_step, lemma_unwrapped_wf, BridgeView};
use crate::record::{put_record, put_result};
use crate::value::ValueView;

verus! {

/// Giving the stake of a pending handle back touches no shared cell without
/// owners and no record of a scope, and makes no cell and no handle.
pub proof fn lemma_drop_stake_keeps(b: BridgeView, cur: int)
    requires
        b.wf_pending(Some(cur)),
    ensures
        b.drop_stake(cur).registry == b.registry,
        b.drop_stake(cur).shared.len() == b.shared.len(),
        b.drop_stake(cur).scopes.len() == b.scopes.len(),
        b.drop_stake(cur).handles.len() == b.handles.len(),
        forall|r: int|
            0 <= r < b.shared.len() && b.shared[r].strong == 0 ==> #[trigger] b.drop_stake(
                cur,
            ).shared[r] == b.shared[r],
        forall|s: int|
            0 <= s < b.scopes.len() ==> (#[trigger] b.drop_stake(cur).scopes[s]).record
                == b.scopes[s].record,
    decreases cur,
{
    lemma_drop_step(b, cur);
    match b.handles[cur].target {
        Target::Child { parent, projection } => {
            let next = b.child_gone(parent as int);
            if !next.handles[parent as int].holds_stake() {
                lemma_drop_stake_keeps(next, parent as int);
            }
        },
        _ => {},
    }
}

/// No operation gives an owner to a shared cell that has lost its last one,
/// and none revives a scope that has ended.
pub proof fn lemma_step_keeps_released(b: BridgeView, step: Step, r: int, s: int)
    requires
        b.wf(),
        step.wf(),
    ensures
        b.is_released(r) ==> b.step(step).is_released(r),
        b.has_ended(s) ==> b.step(step).has_ended(s),
{
    match step {
        Step::Finalize { handle } => {
            if b.is_live(handle) {
                lemma_unwrapped_wf(b, handle);
                if b.handles[handle].children == 0 {
                    lemma_drop_stake_keeps(b.unwrapped(handle), handle);
                }
            }
        },
        Step::SetProperty { handle, name, value } => {
            if b.set_result(handle, name, value) is Ok {
                lemma_root_alive(b, handle);
            }
        },
        Step::CallMethod { handle, name, args } => {
            if b.call_reaches(handle, name) {
                lemma_root_alive(b, handle);
            }
        },
        Step::HostRetain { handle } => {
            if b.is_live(handle) {
                lemma_root_alive(b, handle);
            }
        },
        Step::EndScope { handle } => {
            if b.scope_of(handle) is Some {
                assert(b.handle_ok(handle, None));
            }
        },
        Step::Enter { handle } => {
            if b.is_live(handle) {
                lemma_root_alive(b, handle);
            }
        },
        _ => {},
    }
    if b.is_released(r) {
        assert(b.shared_ok(r, None));
    }
}

/// Every sequence of operations keeps the invariant.
pub proof fn lemma_run_wf(b: BridgeView, steps: Seq<Step>)
    requires
        b.wf(),
        forall|i: int| 0 <= i < steps.len() ==> (#[trigger] steps[i]).wf(),
    ensures
        b.run(steps).wf(),
    decreases steps.len(),
{
    if steps.len() > 0 {
        lemma_run_wf(b, steps.drop_last());
        lemma_step_wf(b.run(steps.drop_last()), steps.last());
    }
}

/// Single release. Whatever handles are made, dropped and finalized, and in
/// whatever order: the count of owners of a shared cell is zero only when no
/// owner is left, neither the host nor a handle that still holds its stake,
/// directly or through its parents; the record leaves the cell exactly then;
/// while an owner is left the count is not zero; and a count that has come
/// to zero stays there through every later operation, so that it comes to
/// zero once.
pub proof fn law_single_release(b: BridgeView, steps: Seq<Step>, later: Seq<Step>, r: int, h: int)
    requires
        b.wf(),
        forall|i: int| 0 <= i < steps.len() ==> (#[trigger] steps[i]).wf(),
        forall|i: int| 0 <= i < later.len() ==> (#[trigger] later[i]).wf(),
        0 <= r < b.run(steps).shared.len(),
    ensures
        b.run(steps).wf(),
        b.run(steps).is_released(r) <==> b.run(steps).shared[r].record is None,
        b.run(steps).is_released(r) ==> b.run(steps).shared[r].host == 0,
        b.run(steps).is_released(r) && 0 <= h < b.run(steps).handles.len() && b.run(
            steps,
        ).handles[h].holds_stake() ==> b.run(steps).root_of(h) != Target::Shared(r as usize),
        !b.run(steps).is_released(r) ==> b.run(steps).shared[r].host > 0 || exists|k: int|
            0 <= k < b.run(steps).handles.len() && (#[trigger] b.run(steps).handles[k]).stakes(
                Owner::Shared(r as usize),
            ),
        b.run(steps).is_released(r) ==> b.run(steps).run(later).is_released(r),
{
    let a = b.run(steps);
    lemma_run_wf(b, steps);
    assert(a.shared_ok(r, None));
    if 0 <= h < a.handles.len() && a.handles[h].holds_stake() {
        lemma_root_alive(a, h);
    }
    lemma_stakes_none(a.handles, Owner::Shared(r as usize));
    if a.is_released(r) {
        lemma_released_forever(a, later, r);
    }
}

/// A shared cell that has lost its last owner never has one again.
pub proof fn lemma_released_forever(b: BridgeView, steps: Seq<Step>, r: int)
    requires
        b.wf(),
        forall|i: int| 0 <= i < steps.len() ==> (#[trigger] steps[i]).wf(),
        b.is_released(r),
    ensures
        b.run(steps).is_released(r),
    decreases steps.len(),
{
    if steps.len() > 0 {
        lemma_released_forever(b, steps.drop_last(), r);
        lemma_run_wf(b, steps.drop_last());
        lemma_step_keeps_released(b.run(steps.drop_last()), steps.last(), r, 0);
    }
}

/// A scope that has ended never holds a record again.
pub proof fn lemma_ended_forever(b: BridgeView, steps: Seq<Step>, s: int)
    requires
        b.wf(),
        forall|i: int| 0 <= i < steps.len() ==> (#[trigger] steps[i]).wf(),
        b.has_ended(s),
    ensures
        b.run(steps).has_ended(s),
    decreases steps.len(),
{
    if steps.len() > 0 {
        lemma_ended_forever(b, steps.drop_last(), s);
        lemma_run_wf(b, steps.drop_last());
        lemma_step_keeps_released(b.run(steps.drop_last()), steps.last(), 0, s);
    }
}

/// Finalization is idempotent: a second finalization of a handle changes
/// nothing.
pub proof fn law_finalize_once(b: BridgeView, h: int)
    requires
        b.wf(),
    ensures
        !b.finalized(h).is_live(h),
        b.finalized(h).finalized(h) == b.finalized(h),
{
    if b.is_live(h) {
        lemma_unwrapped_wf(b, h);
        if b.handles[h].children == 0 {
            lemma_drop_stake_live(b.unwrapped(h), h, h);
        }
    }
}

/// Giving a stake back changes the wrapper flag of no handle.
pub proof fn lemma_drop_stake_live(b: BridgeView, cur: int, h: int)
    requires
        b.wf_pending(Some(cur)),
        0 <= h < b.handles.len(),
    ensures
        b.drop_stake(cur).handles.len() == b.handles.len(),
        b.drop_stake(cur).handles[h].live == b.handles[h].live,
        b.drop_stake(cur).handles[h].target == b.handles[h].target,
    decreases cur,
{
    lemma_drop_step(b, cur);
    match b.handles[cur].target {
        Target::Child { parent, projection } => {
            let next = b.child_gone(parent as int);
            if !next.handles[parent as int].holds_stake() {
                lemma_drop_stake_live(next, parent as int, h);
            }
        },
        _ => {},
    }
}

/// Scope expiry. Once the scope of a borrowed record has ended, every
/// access through a live handle that borrows from it, directly or through
/// its parents, fails with `Expired` and changes nothing: reading or writing
/// a registered property, reading an index or the length of a buffer type,
/// calling a registered method, and entering the handle. This holds after
/// every later sequence of operations as well.
pub proof fn law_scope_expiry(
    b: BridgeView,
    h: int,
    s: int,
    name: Seq<char>,
    value: ValueView,
    index: i64,
    args: Seq<ValueView>,
)
    requires
        b.wf(),
        b.is_live(h),
        b.root_of(h) == Target::Scoped(s as usize),
        b.has_ended(s),
    ensures
        b.enter_result(h) == Err::<Target, ErrorView>(ErrorView::Expired),
        b.entered(h) == b,
        b.field_of(h, name) is Some ==> b.get_result(h, name) == Err::<ValueView, ErrorView>(
            ErrorView::Expired,
        ) && b.after_get(h, name) == b,
        b.field_of(h, name) matches Some(f) && f.setter is Some ==> b.set_result(h, name, value)
            == Err::<(), ErrorView>(ErrorView::Expired) && b.after_set(h, name, value) == b,
        b.buffer_of(h) is Some ==> b.index_result(h, index) == Err::<ValueView, ErrorView>(
            ErrorView::Expired,
        ) && b.after_index(h, index) == b && b.length_result(h) == Err::<ValueView, ErrorView>(
            ErrorView::Expired,
        ),
        b.method_of(h, name) is Some ==> b.call_result(h, name, args) == Err::<
            ValueView,
            ErrorView,
        >(ErrorView::Expired) && b.after_call(h, name, args) == b,
{
}

/// Ending the scope of a borrowed handle ends it for good: the scope holds
/// no record afterwards, whatever operations follow.
pub proof fn law_end_scope_revokes(b: BridgeView, h: int, steps: Seq<Step>)
    requires
        b.wf(),
        b.scope_of(h) is Some,
        forall|i: int| 0 <= i < steps.len() ==> (#[trigger] steps[i]).wf(),
    ensures
        b.scope_ended(h).has_ended(b.scope_of(h).unwrap() as int),
        b.scope_ended(h).run(steps).has_ended(b.scope_of(h).unwrap() as int),
{
    let s = b.scope_of(h).unwrap() as int;
    assert(b.handle_ok(h, None));
    crate::dispatch::lemma_scope_ended_wf(b, h);
    lemma_ended_forever(b.scope_ended(h), steps, s);
}

/// Unknown field. A name that the table of the type of a live handle does
/// not have, or any name where the type has no table, fails with
/// `UnknownField`, which carries the name as it was asked for and the type;
/// nothing changes.
pub proof fn law_unknown_field(b: BridgeView, h: int, name: Seq<char>, value: ValueView, args: Seq<ValueView>)
    requires
        b.is_live(h),
    ensures
        b.field_of(h, name) is None ==> b.get_result(h, name) == Err::<ValueView, ErrorView>(
            ErrorView::UnknownField { name, type_tag: b.handles[h].target.tag() },
        ) && b.after_get(h, name) == b,
        b.field_of(h, name) is None ==> b.set_result(h, name, value) == Err::<(), ErrorView>(
            ErrorView::UnknownField { name, type_tag: b.handles[h].target.tag() },
        ) && b.after_set(h, name, value) == b,
        b.method_of(h, name) is None ==> b.call_result(h, name, args) == Err::<
            ValueView,
            ErrorView,
        >(ErrorView::UnknownField { name, type_tag: b.handles[h].target.tag() }) && b.after_call(
            h,
            name,
            args,
        ) == b,
{
}

/// Index base consistency. For a buffer of `length` elements a script index
/// is accepted exactly if it lies in `1..=length`, and then stands for the
/// host index one below it: index 1 for host index 0, index `length` for
/// host index `length - 1`. Every other index fails with `IndexOutOfBounds`,
/// which carries the index and the length: so do 0 and `length + 1`.
pub proof fn law_index_base(length: usize, index: i64)
    ensures
        host_index_of(index, length) is Ok <==> 1 <= index <= length,
        host_index_of(index, length) matches Ok(host) ==> host == index - 1,
        host_index_of(index, length) matches Err(e) ==> e == (ErrorView::IndexOutOfBounds {
            index,
            length,
        }),
        index == 1 && length >= 1 ==> host_index_of(index, length) == Ok::<usize, ErrorView>(0),
        index == length && length >= 1 ==> host_index_of(index, length) == Ok::<
            usize,
            ErrorView,
        >((length - 1) as usize),
        index == 0 || index == length + 1 ==> host_index_of(index, length) is Err,
{
}

/// Index base consistency at the bridge: through a live handle on a row of
/// the genotype matrix, whose type reads calls at an index, a script index
/// in `1..=n` gives the call at the host index one below it, and any other
/// index fails with `IndexOutOfBounds`.
pub proof fn law_index_reads_host_element(b: BridgeView, h: int, sample: usize, index: i64)
    requires
        b.wf(),
        b.is_live(h),
        b.handles[h].target.part() == Some(Projection::Sample(sample)),
        b.buffer_of(h) == Some(Buffer::Alleles),
        b.refusal(h) is None,
    ensures
        ({
            let row = b.record_at(b.root_of(h)).genotypes[sample as int];
            &&& 1 <= index <= row.len() ==> b.index_result(h, index) == Ok::<
                ValueView,
                ErrorView,
            >(ValueView::Allele(row[index - 1]))
            &&& !(1 <= index <= row.len()) ==> b.index_result(h, index) == Err::<
                ValueView,
                ErrorView,
            >(ErrorView::IndexOutOfBounds { index, length: row.len() as usize })
            &&& b.after_index(h, index) == b
        }),
{
    lemma_root_alive(b, h);
}

/// Child consistency. After a write of an info key through one handle, a
/// read of the same key through any live handle on the same record gives
/// the written value: through a child that views the info mapping, or
/// through the record itself. Nothing is cached: the read goes to the
/// record as the write left it.
pub proof fn law_child_consistency(
    b: BridgeView,
    writer: int,
    set: Seq<char>,
    reader: int,
    get: Seq<char>,
    key: Seq<char>,
    value: ValueView,
)
    requires
        b.wf(),
        b.is_live(writer),
        b.handles[writer].target.part() == Some(Projection::Info),
        b.method_of(writer, set) == Some(Method::InfoSet),
        b.call_result(writer, set, seq![ValueView::Str(key), value]) is Ok,
        b.is_live(reader),
        b.root_of(reader) == b.root_of(writer),
        (b.handles[reader].target.part() == Some(Projection::Info) && b.method_of(reader, get)
            == Some(Method::InfoGet)) || (b.handles[reader].target.part() is None && b.method_of(
            reader,
            get,
        ) == Some(Method::RecordInfo)),
    ensures
        b.after_call(writer, set, seq![ValueView::Str(key), value]).call_result(
            reader,
            get,
            seq![ValueView::Str(key)],
        ) == Ok::<ValueView, ErrorView>(value),
{
    let args = seq![ValueView::Str(key), value];
    let a = b.after_call(writer, set, args);
    let root = b.root_of(writer);
    lemma_root_alive(b, writer);
    assert(args[0] == ValueView::Str(key));
    assert(args[1] == value);
    assert(key_argument(args) == Some(key));
    let before = b.record_at(root);
    assert(put_result(key, value) is Ok);
    lemma_stored_then_lookup(before.info, key, value, key);
    assert(a.handles == b.handles);
    lemma_same_roots(b, a, reader);
    let after = a.record_at(root);
    assert(after == put_record(before, key, value));
    let read_args = seq![ValueView::Str(key)];
    assert(read_args[0] == ValueView::Str(key));
    assert(key_argument(read_args) == Some(key));
    assert(a.method_of(reader, get) == b.method_of(reader, get));
    assert(a.admission(root) is None);
}

/// Two states with the same handles have the same roots.
pub proof fn lemma_same_roots(b: BridgeView, a: BridgeView, h: int)
    requires
        a.handles == b.handles,
    ensures
        a.root_of(h) == b.root_of(h),
    decreases h,
{
    if 0 <= h < b.handles.len() {
        match b.handles[h].target {
            Target::Child { parent, projection } => {
                if parent < h {
                    lemma_same_roots(b, a, parent as int);
                }
            },
            _ => {},
        }
    }
}

/// A child made by reading a property or an index refers to the handle it
/// was read through, and so to the same record; making it changes no record.
pub proof fn law_child_shares_root(b: BridgeView, parent: int, projection: Projection)
    requires
        b.wf(),
        b.is_live(parent),
    ensures
        b.with_child(parent, projection).root_of(b.handles.len() as int) == b.root_of(parent),
        b.with_child(parent, projection).shared == b.shared,
        b.with_child(parent, projection).scopes == b.scopes,
        b.with_child(parent, projection).is_live(b.handles.len() as int),
        b.with_child(parent, projection).handles[b.handles.len() as int].target.part() == Some(
            projection,
        ),
{
    let a = b.with_child(parent, projection);
    lemma_root_unchanged_by_counts(b, a, parent);
}

/// The root of a handle depends on the targets of the handles up to it and
/// on nothing else.
pub proof fn lemma_root_unchanged_by_counts(b: BridgeView, a: BridgeView, h: int)
    requires
        0 <= h < b.handles.len(),
        b.handles.len() <= a.handles.len(),
        forall|k: int| 0 <= k <= h ==> (#[trigger] a.handles[k]).target == b.handles[k].target,
    ensures
        a.root_of(h) == b.root_of(h),
    decreases h,
{
    match b.handles[h].target {
        Target::Child { parent, projection } => {
            if parent < h {
                lemma_root_unchanged_by_counts(b, a, parent as int);
            }
        },
        _ => {},
    }
}

/// The lock is released on every path: reading, writing, indexing and
/// calling leave the lock of every shared cell as they found it.
pub proof fn law_lock_restored(
    b: BridgeView,
    h: int,
    name: Seq<char>,
    value: ValueView,
    index: i64,
    args: Seq<ValueView>,
    r: int,
)
    requires
        b.wf(),
        0 <= r < b.shared.len(),
    ensures
        b.after_get(h, name).shared[r].lock == b.shared[r].lock,
        b.after_set(h, name, value).shared[r].lock == b.shared[r].lock,
        b.after_index(h, index).shared[r].lock == b.shared[r].lock,
        b.after_call(h, name, args).shared[r].lock == b.shared[r].lock,
{
    if b.is_live(h) {
        lemma_root_alive(b, h);
    }
}

/// While a host thread holds the lock of a shared cell, every access of the
/// script through a live handle on that cell is refused with `Busy`; after
/// the thread failed with the lock held, with `LockFailed`.
pub proof fn law_lock_refuses(b: BridgeView, h: int, r: usize, name: Seq<char>)
    requires
        b.wf(),
        b.is_live(h),
        b.root_of(h) == Target::Shared(r),
        b.field_of(h, name) is Some,
    ensures
        r < b.shared.len(),
        b.shared[r as int].lock == LockState::HostHeld ==> b.get_result(h, name) == Err::<
            ValueView,
            ErrorView,
        >(ErrorView::Busy),
        b.shared[r as int].lock == LockState::Poisoned ==> b.get_result(h, name) == Err::<
            ValueView,
            ErrorView,
        >(ErrorView::LockFailed),
{
    lemma_root_alive(b, h);
}

/// Whether a getter reads the field that a setter writes.
pub open spec fn reads_back(setter: Setter, getter: Getter) -> bool {
    match (setter, getter) {
        (Setter::Chrom, Getter::Chrom) => true,
        (Setter::Start, Getter::Start) => true,
        (Setter::Id, Getter::Id) => true,
        _ => false,
    }
}

/// A value written to a property of a record through one handle is read
/// back through any live handle on the same record whose property reads the
/// field that was written.
pub proof fn law_set_then_get(
    b: BridgeView,
    writer: int,
    written_name: Seq<char>,
    reader: int,
    read_name: Seq<char>,
    value: ValueView,
)
    requires
        b.wf(),
        b.set_result(writer, written_name, value) is Ok,
        b.is_live(reader),
        b.root_of(reader) == b.root_of(writer),
        b.handles[reader].target.part() is None,
        b.field_of(reader, read_name) matches Some(f) && reads_back(
            b.field_of(writer, written_name).unwrap().setter.unwrap(),
            f.getter,
        ),
    ensures
        b.after_set(writer, written_name, value).get_result(reader, read_name) == Ok::<
            ValueView,
            ErrorView,
        >(value),
{
    let a = b.after_set(writer, written_name, value);
    lemma_root_alive(b, writer);
    lemma_same_roots(b, a, reader);
}

/// No partial execution: a call that fails leaves the state as it was.
pub proof fn law_failure_changes_nothing(
    b: BridgeView,
    h: int,
    name: Seq<char>,
    value: ValueView,
    index: i64,
    args: Seq<ValueView>,
)
    requires
        b.wf(),
    ensures
        b.get_result(h, name) is Err ==> b.after_get(h, name) == b,
        b.set_result(h, name, value) is Err ==> b.after_set(h, name, value) == b,
        b.index_result(h, index) is Err ==> b.after_index(h, index) == b,
        b.call_result(h, name, args) is Err ==> b.after_call(h, name, args) == b,
{
    if b.call_reaches(h, name) && b.call_result(h, name, args) is Err {
        lemma_root_alive(b, h);
        let a = b.after_call(h, name, args);
        assert(a.shared =~= b.shared);
        assert(a.scopes =~= b.scopes);
    }
}

/// No deadlock on nested calls: a call that enters a shared cell whose lock
/// the bridge already holds for an outer call is admitted, and the lock is
/// counted once more instead of being acquired again; leaving gives the
/// count back.
pub proof fn law_nested_enter(b: BridgeView, h: int, r: usize, depth: usize)
    requires
        b.wf(),
        b.is_live(h),
        b.root_of(h) == Target::Shared(r),
        b.shared[r as int].lock == LockState::Held(depth),
        depth < usize::MAX,
    ensures
        b.enter_result(h) == Ok::<Target, ErrorView>(Target::Shared(r)),
        b.entered(h).shared[r as int].lock == LockState::Held((depth + 1) as usize),
        b.entered(h).left(Target::Shared(r)) == b,
{
    lemma_root_alive(b, h);
    crate::dispatch::lemma_enter_then_leave(b, h);
}

} // verus!
