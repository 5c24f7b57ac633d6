//! The bridge as a state machine: every operation as one step, and what
//! holds of every sequence of steps.

use vstd::prelude::*;
use crate::access::{invoked, written};
use crate::cell::{LockState, OwnershipMode, Target};
use crate::descriptor::{TableView, TypeTag};
use crate::dispatch::{
    lemma_delivery_wf, lemma_enter_then_leave, lemma_host_stake_wf, lemma_root_alive,
    lemma_scope_ended_wf, lemma_with_lock_wf, lemma_with_record_wf,
};
use crate::info::lemma_stored_then_lookup;
use crate::model::{lemma_finalized_wf, lemma_scoped_root_wf, lemma_shared_root_wf, BridgeView};
use crate::record::RecordView;
use crate::value::ValueView;

verus! {

/// One operation of the bridge, with its arguments.
pub enum Step {
    RegisterType { type_tag: TypeTag, table: TableView },
    Wrap { record: RecordView, mode: OwnershipMode },
    Finalize { handle: int },
    EndScope { handle: int },
    Enter { handle: int },
    Leave { at: Target },
    GetProperty { handle: int, name: Seq<char> },
    SetProperty { handle: int, name: Seq<char>, value: ValueView },
    GetIndex { handle: int, index: i64 },
    Length { handle: int },
    CallMethod { handle: int, name: Seq<char>, args: Seq<ValueView> },
    HostRetain { handle: int },
    HostRelease { root: int },
    HostLock { root: int },
    HostUnlock { root: int },
    HostPoison { root: int },
    HostReplace { root: int, record: RecordView },
}

impl Step {
    /// Whether the arguments of the step are well formed.
    pub open spec fn wf(self) -> bool {
        match self {
            Step::RegisterType { type_tag, table } => table.wf(),
            Step::Wrap { record, mode } => record.wf(),
            Step::HostReplace { root, record } => record.wf(),
            _ => true,
        }
    }
}

impl BridgeView {
    /// The state after one operation.
    pub open spec fn step(self, step: Step) -> BridgeView {
        match step {
            Step::RegisterType { type_tag, table } => self.registered(type_tag, table),
            Step::Wrap { record, mode } => self.wrapped(record, mode),
            Step::Finalize { handle } => self.finalized(handle),
            Step::EndScope { handle } => self.scope_ended(handle),
            Step::Enter { handle } => self.entered(handle),
            Step::Leave { at } => self.left(at),
            Step::GetProperty { handle, name } => self.after_get(handle, name),
            Step::SetProperty { handle, name, value } => self.after_set(handle, name, value),
            Step::GetIndex { handle, index } => self.after_index(handle, index),
            Step::Length { handle } => self,
            Step::CallMethod { handle, name, args } => self.after_call(handle, name, args),
            Step::HostRetain { handle } => self.retained(handle),
            Step::HostRelease { root } => self.host_released(root),
            Step::HostLock { root } => self.lock_moved(
                root,
                LockState::Free,
                LockState::HostHeld,
            ),
            Step::HostUnlock { root } => self.lock_moved(
                root,
                LockState::HostHeld,
                LockState::Free,
            ),
            Step::HostPoison { root } => self.lock_moved(
                root,
                LockState::HostHeld,
                LockState::Poisoned,
            ),
            Step::HostReplace { root, record } => self.host_replaced(root, record),
        }
    }

    /// The state after a sequence of operations.
    pub open spec fn run(self, steps: Seq<Step>) -> BridgeView
        decreases steps.len(),
    {
        if steps.len() == 0 {
            self
        } else {
            self.run(steps.drop_last()).step(steps.last())
        }
    }

    /// Whether a shared cell has lost its last owner.
    pub open spec fn is_released(self, r: int) -> bool {
        0 <= r < self.shared.len() && self.shared[r].strong == 0
    }

    /// Whether the scope with this index has ended.
    pub open spec fn has_ended(self, s: int) -> bool {
        0 <= s < self.scopes.len() && self.scopes[s].record is None
    }
}

/// A change that leaves the counts and the handles alone keeps the
/// invariant, if the records stay well formed, a record stays exactly where
/// there is an owner, and a lock that the bridge holds is held at least once.
proof fn lemma_cells_changed_wf(b: BridgeView, a: BridgeView)
    requires
        b.wf(),
        a.registry.wf(),
        a.limit == b.limit,
        a.handles == b.handles,
        a.shared.len() == b.shared.len(),
        a.scopes.len() == b.scopes.len(),
        forall|r: int|
            0 <= r < b.shared.len() ==> {
                &&& (#[trigger] a.shared[r]).strong == b.shared[r].strong
                &&& a.shared[r].host == b.shared[r].host
                &&& a.shared[r].record is Some == b.shared[r].record is Some
                &&& (a.shared[r].record matches Some(rec) ==> rec.wf())
                &&& (a.shared[r].lock matches LockState::Held(n) ==> n >= 1)
            },
        forall|s: int|
            0 <= s < b.scopes.len() ==> {
                &&& (#[trigger] a.scopes[s]).borrows == b.scopes[s].borrows
                &&& (a.scopes[s].record matches Some(rec) ==> rec.wf())
            },
    ensures
        a.wf(),
{
    assert forall|r: int| 0 <= r < a.shared.len() implies #[trigger] a.shared_ok(r, None) by {
        assert(b.shared_ok(r, None));
    }
    assert forall|s: int| 0 <= s < a.scopes.len() implies #[trigger] a.scope_ok(s, None) by {
        assert(b.scope_ok(s, None));
    }
    assert forall|h: int| 0 <= h < a.handles.len() implies #[trigger] a.handle_ok(h, None) by {
        assert(b.handle_ok(h, None));
    }
}

/// The record at the root of a live handle that can be resolved is there
/// and well formed.
proof fn lemma_resolved_record(b: BridgeView, h: int)
    requires
        b.wf(),
        b.is_live(h),
        b.refusal(h) is None,
    ensures
        b.record_at(b.root_of(h)).wf(),
        match b.root_of(h) {
            Target::Shared(r) => r < b.shared.len() && b.shared[r as int].record is Some,
            Target::Scoped(s) => s < b.scopes.len() && b.scopes[s as int].record is Some,
            Target::Child { .. } => false,
        },
{
    lemma_root_alive(b, h);
}

/// Every operation keeps the invariant.
pub proof fn lemma_step_wf(b: BridgeView, step: Step)
    requires
        b.wf(),
        step.wf(),
    ensures
        b.step(step).wf(),
{
    let a = b.step(step);
    match step {
        Step::RegisterType { type_tag, table } => {
            assert forall|r: int| 0 <= r < b.shared.len() implies {
                &&& (#[trigger] a.shared[r]).record matches Some(rec) ==> rec.wf()
                &&& a.shared[r].lock matches LockState::Held(n) ==> n >= 1
            } by {
                assert(b.shared_ok(r, None));
            }
            assert forall|s: int| 0 <= s < b.scopes.len() implies ((
            #[trigger] a.scopes[s]).record matches Some(rec) ==> rec.wf()) by {
                assert(b.scope_ok(s, None));
            }
            lemma_cells_changed_wf(b, a);
        },
        Step::Wrap { record, mode } => {
            if b.wrap_result(mode) is Some {
                if mode == OwnershipMode::OwnedShared {
                    lemma_shared_root_wf(b, record);
                } else {
                    lemma_scoped_root_wf(b, record);
                }
            }
        },
        Step::Finalize { handle } => {
            lemma_finalized_wf(b, handle);
        },
        Step::EndScope { handle } => {
            lemma_scope_ended_wf(b, handle);
        },
        Step::Enter { handle } => {
            if b.enter_result(handle) is Ok {
                lemma_enter_then_leave(b, handle);
            }
        },
        Step::Leave { at } => {
            match at {
                Target::Shared(r) => {
                    if r < b.shared.len() {
                        lemma_with_lock_wf(b, r as int, b.shared[r as int].let_go().lock);
                        assert(a.shared =~= b.with_lock(
                            r as int,
                            b.shared[r as int].let_go().lock,
                        ).shared);
                    }
                },
                _ => {},
            }
        },
        Step::GetProperty { handle, name } => {
            if b.is_live(handle) {
                if b.get_outcome(handle, name) is Ok {
                    lemma_resolved_record(b, handle);
                }
                lemma_delivery_wf(b, handle, b.get_outcome(handle, name));
            }
        },
        Step::SetProperty { handle, name, value } => {
            if b.set_result(handle, name, value) is Ok {
                lemma_resolved_record(b, handle);
                let root = b.root_of(handle);
                lemma_with_record_wf(
                    b,
                    root,
                    written(
                        b.record_at(root),
                        b.handles[handle].target.part(),
                        b.field_of(handle, name).unwrap().setter.unwrap(),
                        value,
                    ),
                );
            }
        },
        Step::GetIndex { handle, index } => {
            if b.is_live(handle) {
                lemma_delivery_wf(b, handle, b.index_outcome(handle, index));
            }
        },
        Step::Length { handle } => {},
        Step::CallMethod { handle, name, args } => {
            if b.call_reaches(handle, name) {
                lemma_resolved_record(b, handle);
                let root = b.root_of(handle);
                let before = b.record_at(root);
                let after = invoked(
                    before,
                    b.handles[handle].target.part(),
                    b.method_of(handle, name).unwrap(),
                    args,
                );
                if after != before {
                    lemma_stored_then_lookup(
                        before.info,
                        crate::access::key_argument(args).unwrap(),
                        args[1],
                        crate::access::key_argument(args).unwrap(),
                    );
                }
                lemma_with_record_wf(b, root, after);
            }
        },
        Step::HostRetain { handle } => {
            lemma_host_stake_wf(b, handle, 0);
        },
        Step::HostRelease { root } => {
            lemma_host_stake_wf(b, 0, root);
        },
        Step::HostLock { root } => {
            if b.lock_is(root, LockState::Free) {
                lemma_with_lock_wf(b, root, LockState::HostHeld);
            }
        },
        Step::HostUnlock { root } => {
            if b.lock_is(root, LockState::HostHeld) {
                lemma_with_lock_wf(b, root, LockState::Free);
            }
        },
        Step::HostPoison { root } => {
            if b.lock_is(root, LockState::HostHeld) {
                lemma_with_lock_wf(b, root, LockState::Poisoned);
            }
        },
        Step::HostReplace { root, record } => {
            if b.lock_is(root, LockState::HostHeld) {
                lemma_with_record_wf(b, Target::Shared(root as usize), record);
            }
        },
    }
}

} // verus!
