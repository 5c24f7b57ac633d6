//! The model of a bridged call: look the descriptor up, resolve the handle
//! to its record, run the accessor, convert the result, release. A failure
//! before the accessor runs changes nothing.

use vstd::prelude::*;
use crate::access::{
    element, element_of, extent, extent_of, fetched_view, invoke_result, invoked, read_of,
    write_result, written, Fetched, FetchedView,
};
use crate::cell::{lemma_stakes_member, LockState, Owner, Projection, Target};
use crate::descriptor::{Buffer, FieldView, Method};
use crate::error::{done_view, BridgeError, ErrorView};
use crate::model::{lemma_child_wf, lemma_shared_root_wf, BridgeView, ScopeView, SharedView};
use crate::record::{Record, RecordView};
use crate::value::ValueView;

verus! {

/// The name under which a failure of the reserved index slot is reported.
pub open spec fn index_slot() -> Seq<char> {
    seq!['i', 'n', 'd', 'e', 'x']
}

/// The name under which a failure of the reserved length slot is reported.
pub open spec fn length_slot() -> Seq<char> {
    seq!['l', 'e', 'n', 'g', 't', 'h']
}

/// The 0-based host index that a 1-based script index stands for in a
/// buffer of `length` elements, or the failure for an index outside
/// `1..=length`.
pub open spec fn host_index_of(index: i64, length: usize) -> Result<usize, ErrorView> {
    if 1 <= index <= length {
        Ok((index - 1) as usize)
    } else {
        Err(ErrorView::IndexOutOfBounds { index, length })
    }
}

/// The 1-based script index of the element at a 0-based host index, as far
/// as a script number reaches.
pub open spec fn script_index_of(host: usize) -> i64 {
    if host < i64::MAX {
        (host + 1) as i64
    } else {
        i64::MAX
    }
}

/// Why a part of a record cannot be reached, if it cannot: the row of a
/// sample that the record no longer has.
pub open spec fn part_error(record: RecordView, part: Option<Projection>) -> Option<ErrorView> {
    match part {
        Some(Projection::Sample(i)) => if i < record.genotypes.len() {
            None
        } else {
            Some(
                ErrorView::IndexOutOfBounds {
                    index: script_index_of(i),
                    length: record.genotypes.len() as usize,
                },
            )
        },
        _ => None,
    }
}

/// What the reserved index slot reads at a 1-based script index.
pub open spec fn index_of(
    record: RecordView,
    part: Option<Projection>,
    buffer: Buffer,
    index: i64,
) -> Result<FetchedView, ErrorView> {
    match extent_of(record, part, buffer) {
        Ok(length) => match host_index_of(index, length) {
            Ok(host) => Ok(element_of(record, part, buffer, host)),
            Err(e) => Err(e),
        },
        Err(e) => Err(e),
    }
}

/// The length of a buffer as a script number.
pub open spec fn length_value(length: usize) -> i64 {
    if length <= i64::MAX {
        length as i64
    } else {
        i64::MAX
    }
}

impl BridgeView {
    /// Why the cell at the root of a handle cannot be entered, if it cannot:
    /// a shared cell whose lock the host holds or that a failed host thread
    /// left poisoned, or a scope that has ended.
    pub open spec fn admission(self, root: Target) -> Option<ErrorView> {
        match root {
            Target::Shared(r) => match self.shared[r as int].lock {
                LockState::Free => None,
                LockState::Held(n) => if n < usize::MAX {
                    None
                } else {
                    Some(ErrorView::Busy)
                },
                LockState::HostHeld => Some(ErrorView::Busy),
                LockState::Poisoned => Some(ErrorView::LockFailed),
            },
            Target::Scoped(s) => if self.scopes[s as int].record is Some {
                None
            } else {
                Some(ErrorView::Expired)
            },
            Target::Child { .. } => None,
        }
    }

    /// The record in the cell at a root.
    pub open spec fn record_at(self, root: Target) -> RecordView {
        match root {
            Target::Shared(r) => self.shared[r as int].record.unwrap(),
            Target::Scoped(s) => self.scopes[s as int].record.unwrap(),
            Target::Child { .. } => arbitrary(),
        }
    }

    /// The state with another record in the cell at a root.
    pub open spec fn with_record(self, root: Target, record: RecordView) -> BridgeView {
        match root {
            Target::Shared(r) => BridgeView {
                shared: self.shared.update(
                    r as int,
                    SharedView { record: Some(record), ..self.shared[r as int] },
                ),
                ..self
            },
            Target::Scoped(s) => BridgeView {
                scopes: self.scopes.update(
                    s as int,
                    ScopeView { record: Some(record), ..self.scopes[s as int] },
                ),
                ..self
            },
            Target::Child { .. } => self,
        }
    }

    /// What entering a handle returns: the root of the handle, or the
    /// failure of a stale handle or of a cell that cannot be entered.
    pub open spec fn enter_result(self, h: int) -> Result<Target, ErrorView> {
        if !self.is_live(h) {
            Err(ErrorView::StaleHandle)
        } else {
            match self.admission(self.root_of(h)) {
                Some(e) => Err(e),
                None => Ok(self.root_of(h)),
            }
        }
    }

    /// The state after entering a handle: the lock of its shared cell is
    /// acquired once more; nothing changes for a scope or on failure.
    pub open spec fn entered(self, h: int) -> BridgeView {
        match self.enter_result(h) {
            Ok(Target::Shared(r)) => BridgeView {
                shared: self.shared.update(r as int, self.shared[r as int].acquired()),
                ..self
            },
            _ => self,
        }
    }

    /// The state after leaving a root: one acquisition of the lock of a
    /// shared cell is given up.
    pub open spec fn left(self, root: Target) -> BridgeView {
        match root {
            Target::Shared(r) => if r < self.shared.len() {
                BridgeView {
                    shared: self.shared.update(r as int, self.shared[r as int].let_go()),
                    ..self
                }
            } else {
                self
            },
            _ => self,
        }
    }

    /// Why a live handle cannot be resolved to its part of a record, if it
    /// cannot.
    pub open spec fn refusal(self, h: int) -> Option<ErrorView> {
        match self.admission(self.root_of(h)) {
            Some(e) => Some(e),
            None => part_error(self.record_at(self.root_of(h)), self.handles[h].target.part()),
        }
    }

    /// The property of that name in the table of the type of a handle.
    pub open spec fn field_of(self, h: int, name: Seq<char>) -> Option<FieldView> {
        match self.registry.table(self.handles[h].target.tag()) {
            Some(t) => t.field(name),
            None => None,
        }
    }

    /// The method of that name in the table of the type of a handle.
    pub open spec fn method_of(self, h: int, name: Seq<char>) -> Option<Method> {
        match self.registry.table(self.handles[h].target.tag()) {
            Some(t) => t.method(name),
            None => None,
        }
    }

    /// What the reserved slots of the type of a handle read.
    pub open spec fn buffer_of(self, h: int) -> Option<Buffer> {
        match self.registry.table(self.handles[h].target.tag()) {
            Some(t) => t.buffer,
            None => None,
        }
    }

    /// The failure of a name that the type of a handle does not have.
    pub open spec fn unknown(self, h: int, name: Seq<char>) -> ErrorView {
        ErrorView::UnknownField { name, type_tag: self.handles[h].target.tag() }
    }

    /// What the script receives for what an accessor fetched: a value as
    /// it is, a part as the handle of a new child, a copy as the handle of a
    /// new shared cell.
    pub open spec fn delivered(self, outcome: Result<FetchedView, ErrorView>) -> Result<
        ValueView,
        ErrorView,
    > {
        match outcome {
            Ok(FetchedView::Value(v)) => Ok(v),
            Ok(FetchedView::Child(_)) | Ok(FetchedView::Copy(_)) => if self.has_room() {
                Ok(ValueView::Handle(self.handles.len() as usize))
            } else {
                Err(ErrorView::Exhausted)
            },
            Err(e) => Err(e),
        }
    }

    /// The state after the result of an accessor was converted: one more
    /// child of the handle where a part was fetched, one more shared cell
    /// with its first handle where a copy was fetched, else unchanged.
    pub open spec fn after_delivery(self, h: int, outcome: Result<FetchedView, ErrorView>) -> BridgeView {
        match outcome {
            Ok(FetchedView::Child(p)) => if self.has_room() {
                self.with_child(h, p)
            } else {
                self
            },
            Ok(FetchedView::Copy(record)) => if self.has_room() {
                self.with_shared_root(record)
            } else {
                self
            },
            _ => self,
        }
    }

    /// What the getter of a property fetches.
    pub open spec fn get_outcome(self, h: int, name: Seq<char>) -> Result<FetchedView, ErrorView> {
        if !self.is_live(h) {
            Err(ErrorView::StaleHandle)
        } else {
            match self.field_of(h, name) {
                None => Err(self.unknown(h, name)),
                Some(f) => match self.refusal(h) {
                    Some(e) => Err(e),
                    None => read_of(
                        self.record_at(self.root_of(h)),
                        self.handles[h].target.part(),
                        f.getter,
                    ),
                },
            }
        }
    }

    /// What reading a property returns.
    pub open spec fn get_result(self, h: int, name: Seq<char>) -> Result<ValueView, ErrorView> {
        self.delivered(self.get_outcome(h, name))
    }

    /// The state after reading a property.
    pub open spec fn after_get(self, h: int, name: Seq<char>) -> BridgeView {
        self.after_delivery(h, self.get_outcome(h, name))
    }

    /// What writing a property returns.
    pub open spec fn set_result(self, h: int, name: Seq<char>, value: ValueView) -> Result<
        (),
        ErrorView,
    > {
        if !self.is_live(h) {
            Err(ErrorView::StaleHandle)
        } else {
            match self.field_of(h, name) {
                None => Err(self.unknown(h, name)),
                Some(f) => match f.setter {
                    None => Err(ErrorView::ReadOnly { name }),
                    Some(setter) => match self.refusal(h) {
                        Some(e) => Err(e),
                        None => write_result(self.handles[h].target.part(), setter, value),
                    },
                },
            }
        }
    }

    /// The state after writing a property: the record changed where the
    /// write succeeded, nothing changed where it failed.
    pub open spec fn after_set(self, h: int, name: Seq<char>, value: ValueView) -> BridgeView {
        if self.set_result(h, name, value) is Ok {
            let root = self.root_of(h);
            self.with_record(
                root,
                written(
                    self.record_at(root),
                    self.handles[h].target.part(),
                    self.field_of(h, name).unwrap().setter.unwrap(),
                    value,
                ),
            )
        } else {
            self
        }
    }

    /// What the reserved index slot fetches at a 1-based script index.
    pub open spec fn index_outcome(self, h: int, index: i64) -> Result<FetchedView, ErrorView> {
        if !self.is_live(h) {
            Err(ErrorView::StaleHandle)
        } else {
            match self.buffer_of(h) {
                None => Err(self.unknown(h, index_slot())),
                Some(buffer) => match self.refusal(h) {
                    Some(e) => Err(e),
                    None => index_of(
                        self.record_at(self.root_of(h)),
                        self.handles[h].target.part(),
                        buffer,
                        index,
                    ),
                },
            }
        }
    }

    /// What reading at an index returns.
    pub open spec fn index_result(self, h: int, index: i64) -> Result<ValueView, ErrorView> {
        self.delivered(self.index_outcome(h, index))
    }

    /// The state after reading at an index.
    pub open spec fn after_index(self, h: int, index: i64) -> BridgeView {
        self.after_delivery(h, self.index_outcome(h, index))
    }

    /// What reading the length returns.
    pub open spec fn length_result(self, h: int) -> Result<ValueView, ErrorView> {
        if !self.is_live(h) {
            Err(ErrorView::StaleHandle)
        } else {
            match self.buffer_of(h) {
                None => Err(self.unknown(h, length_slot())),
                Some(buffer) => match self.refusal(h) {
                    Some(e) => Err(e),
                    None => match extent_of(
                        self.record_at(self.root_of(h)),
                        self.handles[h].target.part(),
                        buffer,
                    ) {
                        Ok(n) => Ok(ValueView::Int(length_value(n))),
                        Err(e) => Err(e),
                    },
                },
            }
        }
    }

    /// Whether a call of a method reaches the record of the handle.
    pub open spec fn call_reaches(self, h: int, name: Seq<char>) -> bool {
        self.is_live(h) && self.method_of(h, name) is Some && self.refusal(h) is None
    }

    /// What calling a method returns.
    pub open spec fn call_result(self, h: int, name: Seq<char>, args: Seq<ValueView>) -> Result<
        ValueView,
        ErrorView,
    > {
        if !self.is_live(h) {
            Err(ErrorView::StaleHandle)
        } else {
            match self.method_of(h, name) {
                None => Err(self.unknown(h, name)),
                Some(method) => match self.refusal(h) {
                    Some(e) => Err(e),
                    None => invoke_result(
                        self.record_at(self.root_of(h)),
                        self.handles[h].target.part(),
                        method,
                        args,
                    ),
                },
            }
        }
    }

    /// The state after calling a method.
    pub open spec fn after_call(self, h: int, name: Seq<char>, args: Seq<ValueView>) -> BridgeView {
        if self.call_reaches(h, name) {
            let root = self.root_of(h);
            self.with_record(
                root,
                invoked(
                    self.record_at(root),
                    self.handles[h].target.part(),
                    self.method_of(h, name).unwrap(),
                    args,
                ),
            )
        } else {
            self
        }
    }
}

impl BridgeView {
    /// The state with another lock state in a shared cell.
    pub open spec fn with_lock(self, r: int, lock: LockState) -> BridgeView {
        BridgeView { shared: self.shared.update(r, SharedView { lock, ..self.shared[r] }), ..self }
    }

    /// Whether the index names a shared cell that still has its record.
    pub open spec fn is_owned(self, r: int) -> bool {
        0 <= r < self.shared.len() && self.shared[r].record is Some
    }

    /// The scope that a handle borrows from directly, if it does.
    pub open spec fn scope_of(self, h: int) -> Option<usize> {
        if 0 <= h < self.handles.len() {
            match self.handles[h].target {
                Target::Scoped(s) => Some(s),
                _ => None,
            }
        } else {
            None
        }
    }

    /// The record that ending the scope of a handle gives back to the host:
    /// the lent record, or nothing where the handle borrows from no scope or
    /// the scope has ended before.
    pub open spec fn end_scope_result(self, h: int) -> Option<RecordView> {
        match self.scope_of(h) {
            Some(s) => self.scopes[s as int].record,
            None => None,
        }
    }

    /// The state after the scope of a handle ended: the scope no longer
    /// holds a record.
    pub open spec fn scope_ended(self, h: int) -> BridgeView {
        match self.scope_of(h) {
            Some(s) => BridgeView {
                scopes: self.scopes.update(
                    s as int,
                    ScopeView { record: None, ..self.scopes[s as int] },
                ),
                ..self
            },
            None => self,
        }
    }

    /// The shared cell in which the host takes a stake through a handle:
    /// the cell at the root of a live handle, unless the count of its owners
    /// is at its limit.
    pub open spec fn retain_result(self, h: int) -> Option<usize> {
        if self.is_live(h) {
            match self.root_of(h) {
                Target::Shared(r) => if self.shared[r as int].strong < usize::MAX {
                    Some(r)
                } else {
                    None
                },
                _ => None,
            }
        } else {
            None
        }
    }

    /// The state after the host took a stake through a handle.
    pub open spec fn retained(self, h: int) -> BridgeView {
        match self.retain_result(h) {
            Some(r) => {
                let c = self.shared[r as int];
                BridgeView {
                    shared: self.shared.update(
                        r as int,
                        SharedView {
                            strong: (c.strong + 1) as usize,
                            host: (c.host + 1) as usize,
                            ..c
                        },
                    ),
                    ..self
                }
            },
            None => self,
        }
    }

    /// Whether the host holds a stake in a shared cell.
    pub open spec fn host_owns(self, r: int) -> bool {
        0 <= r < self.shared.len() && self.shared[r].host > 0
    }

    /// The state after the host gave one stake in a shared cell back; the
    /// record leaves with the last owner.
    pub open spec fn host_released(self, r: int) -> BridgeView {
        if self.host_owns(r) {
            let c = self.shared[r].released();
            BridgeView {
                shared: self.shared.update(r, SharedView { host: (c.host - 1) as usize, ..c }),
                ..self
            }
        } else {
            self
        }
    }

    /// Whether the lock of a shared cell is in a given state.
    pub open spec fn lock_is(self, r: int, lock: LockState) -> bool {
        self.is_owned(r) && self.shared[r].lock == lock
    }

    /// The state after a host thread moved the lock of a shared cell from
    /// one state to another; unchanged where the lock is in another state.
    pub open spec fn lock_moved(self, r: int, from: LockState, to: LockState) -> BridgeView {
        if self.lock_is(r, from) {
            self.with_lock(r, to)
        } else {
            self
        }
    }

    /// The state after a host thread that holds the lock of a shared cell
    /// put another record into it.
    pub open spec fn host_replaced(self, r: int, record: RecordView) -> BridgeView {
        if self.lock_is(r, LockState::HostHeld) {
            self.with_record(Target::Shared(r as usize), record)
        } else {
            self
        }
    }
}

/// A handle that holds its stake is never dangling: the chain of its
/// parents ends at a shared cell that still has an owner, and so its record,
/// or at a scope that exists.
pub proof fn lemma_root_alive(b: BridgeView, h: int)
    requires
        b.wf(),
        0 <= h < b.handles.len(),
        b.handles[h].holds_stake(),
    ensures
        match b.root_of(h) {
            Target::Shared(r) => r < b.shared.len() && b.shared[r as int].strong >= 1
                && b.shared[r as int].record is Some && b.shared[r as int].record.unwrap().wf(),
            Target::Scoped(s) => s < b.scopes.len() && b.scopes[s as int].borrows >= 1 && (
            b.scopes[s as int].record matches Some(rec) ==> rec.wf()),
            Target::Child { .. } => false,
        },
    decreases h,
{
    assert(b.handle_ok(h, None));
    match b.handles[h].target {
        Target::Shared(r) => {
            assert(b.shared_ok(r as int, None));
            lemma_stakes_member(b.handles, h, Owner::Shared(r));
        },
        Target::Scoped(s) => {
            assert(b.scope_ok(s as int, None));
            lemma_stakes_member(b.handles, h, Owner::Scoped(s));
        },
        Target::Child { parent, projection } => {
            assert(b.handle_ok(parent as int, None));
            lemma_stakes_member(b.handles, h, Owner::Handle(parent));
            lemma_root_alive(b, parent as int);
        },
    }
}

/// Replacing the record of a cell by another well-formed record keeps the
/// invariant.
pub proof fn lemma_with_record_wf(b: BridgeView, root: Target, record: RecordView)
    requires
        b.wf(),
        record.wf(),
        match root {
            Target::Shared(r) => r < b.shared.len() && b.shared[r as int].record is Some,
            Target::Scoped(s) => s < b.scopes.len(),
            Target::Child { .. } => true,
        },
    ensures
        b.with_record(root, record).wf(),
{
    let a = b.with_record(root, record);
    assert forall|r: int| 0 <= r < a.shared.len() implies #[trigger] a.shared_ok(r, None) by {
        assert(b.shared_ok(r, None));
    }
    assert forall|s: int| 0 <= s < a.scopes.len() implies #[trigger] a.scope_ok(s, None) by {
        assert(b.scope_ok(s, None));
    }
    assert forall|h: int| 0 <= h < a.handles.len() implies #[trigger] a.handle_ok(h, None) by {
        assert(b.handle_ok(h, None));
    }
}

/// Changing the lock of a shared cell keeps the invariant, as long as a
/// lock that the bridge holds is held at least once.
pub proof fn lemma_with_lock_wf(b: BridgeView, r: int, lock: LockState)
    requires
        b.wf(),
        0 <= r < b.shared.len(),
        lock matches LockState::Held(n) ==> n >= 1,
    ensures
        (BridgeView {
            shared: b.shared.update(r, SharedView { lock, ..b.shared[r] }),
            ..b
        }).wf(),
{
    let a = BridgeView { shared: b.shared.update(r, SharedView { lock, ..b.shared[r] }), ..b };
    assert forall|q: int| 0 <= q < a.shared.len() implies #[trigger] a.shared_ok(q, None) by {
        assert(b.shared_ok(q, None));
    }
    assert forall|s: int| 0 <= s < a.scopes.len() implies #[trigger] a.scope_ok(s, None) by {
        assert(b.scope_ok(s, None));
    }
    assert forall|h: int| 0 <= h < a.handles.len() implies #[trigger] a.handle_ok(h, None) by {
        assert(b.handle_ok(h, None));
    }
}

/// Entering a handle and leaving its root again restores the state: the
/// lock is released on every path, and a lock that was already held by an
/// outer call is held as before.
pub proof fn lemma_enter_then_leave(b: BridgeView, h: int)
    requires
        b.wf(),
        b.enter_result(h) is Ok,
    ensures
        b.entered(h).wf(),
        b.entered(h).left(b.root_of(h)) == b,
{
    lemma_root_alive(b, h);
    match b.root_of(h) {
        Target::Shared(r) => {
            assert(b.shared_ok(r as int, None));
            let c = b.shared[r as int];
            lemma_with_lock_wf(b, r as int, c.acquired().lock);
            assert(b.entered(h).shared =~= b.shared.update(
                r as int,
                SharedView { lock: c.acquired().lock, ..c },
            ));
            assert(b.entered(h).left(b.root_of(h)).shared =~= b.shared);
        },
        _ => {},
    }
}

/// What an accessor fetches as a part is a part of the object of the handle.
pub proof fn lemma_delivery_wf(b: BridgeView, h: int, outcome: Result<FetchedView, ErrorView>)
    requires
        b.wf(),
        b.is_live(h),
        outcome matches Ok(FetchedView::Child(p)) ==> b.handles[h].target.tag() == p.parent_tag()
            && (p matches Projection::Sample(i) ==> i < i64::MAX),
        outcome matches Ok(FetchedView::Copy(record)) ==> record.wf(),
    ensures
        b.after_delivery(h, outcome).wf(),
{
    match outcome {
        Ok(FetchedView::Child(p)) => {
            if b.has_room() {
                lemma_child_wf(b, h, p);
            }
        },
        Ok(FetchedView::Copy(record)) => {
            if b.has_room() {
                lemma_shared_root_wf(b, record);
            }
        },
        _ => {},
    }
}

/// Ending a scope keeps the invariant.
pub proof fn lemma_scope_ended_wf(b: BridgeView, h: int)
    requires
        b.wf(),
    ensures
        b.scope_ended(h).wf(),
{
    let a = b.scope_ended(h);
    if b.scope_of(h) is Some {
        assert(b.handle_ok(h, None));
    }
    assert forall|r: int| 0 <= r < a.shared.len() implies #[trigger] a.shared_ok(r, None) by {
        assert(b.shared_ok(r, None));
    }
    assert forall|s: int| 0 <= s < a.scopes.len() implies #[trigger] a.scope_ok(s, None) by {
        assert(b.scope_ok(s, None));
    }
    assert forall|k: int| 0 <= k < a.handles.len() implies #[trigger] a.handle_ok(k, None) by {
        assert(b.handle_ok(k, None));
    }
}

/// A stake of the host, taken or given back, keeps the invariant.
pub proof fn lemma_host_stake_wf(b: BridgeView, h: int, r: int)
    requires
        b.wf(),
    ensures
        b.retained(h).wf(),
        b.host_released(r).wf(),
{
    if b.is_live(h) {
        lemma_root_alive(b, h);
    }
    let a = b.retained(h);
    assert forall|q: int| 0 <= q < a.shared.len() implies #[trigger] a.shared_ok(q, None) by {
        assert(b.shared_ok(q, None));
    }
    assert forall|s: int| 0 <= s < a.scopes.len() implies #[trigger] a.scope_ok(s, None) by {
        assert(b.scope_ok(s, None));
    }
    assert forall|k: int| 0 <= k < a.handles.len() implies #[trigger] a.handle_ok(k, None) by {
        assert(b.handle_ok(k, None));
    }
    let c = b.host_released(r);
    assert forall|q: int| 0 <= q < c.shared.len() implies #[trigger] c.shared_ok(q, None) by {
        assert(b.shared_ok(q, None));
    }
    assert forall|s: int| 0 <= s < c.scopes.len() implies #[trigger] c.scope_ok(s, None) by {
        assert(b.scope_ok(s, None));
    }
    assert forall|k: int| 0 <= k < c.handles.len() implies #[trigger] c.handle_ok(k, None) by {
        assert(b.handle_ok(k, None));
    }
}

/// Translates a 1-based script index into a 0-based host index. This is the
/// one place where the two bases meet.
pub fn host_index(index: i64, length: usize) -> (out: Result<usize, BridgeError>)
    ensures
        match out {
            Ok(host) => host_index_of(index, length) == Ok::<usize, ErrorView>(host),
            Err(e) => host_index_of(index, length) == Err::<usize, ErrorView>(e@),
        },
{
    if index >= 1 && ((index - 1) as u64) < (length as u64) {
        Ok((index - 1) as usize)
    } else {
        Err(BridgeError::IndexOutOfBounds { index, length })
    }
}

/// Translates a 0-based host index into a 1-based script index.
pub fn script_index(host: usize) -> (out: i64)
    ensures
        out == script_index_of(host),
{
    if (host as u64) < (i64::MAX as u64) {
        (host as i64) + 1
    } else {
        i64::MAX
    }
}

/// Checks that a part of a record can be reached.
pub fn check_part(record: &Record, part: Option<Projection>) -> (out: Result<(), BridgeError>)
    ensures
        done_view(out) == match part_error(record@, part) {
            Some(e) => Err::<(), ErrorView>(e),
            None => Ok::<(), ErrorView>(()),
        },
{
    match part {
        Some(Projection::Sample(i)) => {
            let length = record.sample_count();
            if i < length {
                Ok(())
            } else {
                Err(BridgeError::IndexOutOfBounds { index: script_index(i), length })
            }
        },
        _ => Ok(()),
    }
}

/// Runs the reserved index slot at a 1-based script index.
pub fn element_at(record: &Record, part: Option<Projection>, buffer: Buffer, index: i64) -> (out:
    Result<Fetched, BridgeError>)
    requires
        record.wf(),
    ensures
        fetched_view(out) == index_of(record@, part, buffer, index),
{
    let length = match extent(record, part, buffer) {
        Ok(n) => n,
        Err(e) => {
            return Err(e);
        },
    };
    let host = match host_index(index, length) {
        Ok(h) => h,
        Err(e) => {
            return Err(e);
        },
    };
    match element(record, part, buffer, host) {
        Some(f) => Ok(f),
        None => Err(BridgeError::TypeMismatch),
    }
}

} // verus!
