//! The mathematical model of the bridge: its state as plain sequences, the
//! invariant that ties the stored counts to the handles, and the transitions
//! that the operations of the bridge perform.

use vstd::prelude::*;
use crate::cell::{
    lemma_stakes_bound, lemma_stakes_push, lemma_stakes_update, stake_of, stakes_on, HandleCell,
    LockState, Owner, OwnershipMode, Projection, Target,
};
use crate::descriptor::{Buffer, FieldView, MethodView, Setter, TableView, TypeTag};
use crate::record::RecordView;

verus! {

/// The content of a shared cell: the record, its owners and its lock.
pub struct SharedView {
    /// The record, until the last owner is gone.
    pub record: Option<RecordView>,
    /// The number of owners: the stakes of the host and those of the handles.
    pub strong: usize,
    /// The number of stakes that the host holds.
    pub host: usize,
    pub lock: LockState,
}

/// The content of a scope: the record lent for it, until the scope ends.
pub struct ScopeView {
    /// The record, while the scope is active.
    pub record: Option<RecordView>,
    /// The number of handles that borrow from the scope.
    pub borrows: usize,
}

/// The descriptor tables, by type.
pub struct RegistryView {
    pub record: Option<TableView>,
    pub info: Option<TableView>,
    pub genotypes: Option<TableView>,
    pub sample: Option<TableView>,
}

impl RegistryView {
    /// The table registered for a type.
    pub open spec fn table(self, tag: TypeTag) -> Option<TableView> {
        match tag {
            TypeTag::Record => self.record,
            TypeTag::Info => self.info,
            TypeTag::Genotypes => self.genotypes,
            TypeTag::Sample => self.sample,
        }
    }

    /// The names of the properties of a type, in the order of its table;
    /// none where the type has no table.
    pub open spec fn field_names(self, tag: TypeTag) -> Seq<Seq<char>> {
        match self.table(tag) {
            Some(t) => t.fields.map_values(|f: FieldView| f.name),
            None => Seq::empty(),
        }
    }

    /// The names of the methods of a type, in the order of its table; none
    /// where the type has no table.
    pub open spec fn method_names(self, tag: TypeTag) -> Seq<Seq<char>> {
        match self.table(tag) {
            Some(t) => t.methods.map_values(|m: MethodView| m.name),
            None => Seq::empty(),
        }
    }

    /// The setter of a property of a type, where the type has the property
    /// and the property can be written.
    pub open spec fn setter(self, tag: TypeTag, name: Seq<char>) -> Option<Setter> {
        match self.table(tag) {
            Some(t) => match t.field(name) {
                Some(f) => f.setter,
                None => None,
            },
            None => None,
        }
    }

    /// What the reserved slots of a type read, where they are filled.
    pub open spec fn buffer(self, tag: TypeTag) -> Option<Buffer> {
        match self.table(tag) {
            Some(t) => t.buffer,
            None => None,
        }
    }

    /// The registry with a table for a type.
    pub open spec fn with_table(self, tag: TypeTag, table: TableView) -> RegistryView {
        match tag {
            TypeTag::Record => RegistryView { record: Some(table), ..self },
            TypeTag::Info => RegistryView { info: Some(table), ..self },
            TypeTag::Genotypes => RegistryView { genotypes: Some(table), ..self },
            TypeTag::Sample => RegistryView { sample: Some(table), ..self },
        }
    }

    /// Every registered table meets its invariant.
    pub open spec fn wf(self) -> bool {
        &&& self.record matches Some(t) ==> t.wf()
        &&& self.info matches Some(t) ==> t.wf()
        &&& self.genotypes matches Some(t) ==> t.wf()
        &&& self.sample matches Some(t) ==> t.wf()
    }

    /// A registry without tables.
    pub open spec fn empty() -> RegistryView {
        RegistryView { record: None, info: None, genotypes: None, sample: None }
    }
}

/// The state of the bridge.
pub struct BridgeView {
    /// The number of handles that the table can hold.
    pub limit: usize,
    pub registry: RegistryView,
    pub shared: Seq<SharedView>,
    pub scopes: Seq<ScopeView>,
    pub handles: Seq<HandleCell>,
}

impl SharedView {
    /// The cell after one owner dropped its stake; the record leaves with
    /// the last owner.
    pub open spec fn released(self) -> SharedView {
        SharedView {
            record: if self.strong == 1 {
                None
            } else {
                self.record
            },
            strong: (self.strong - 1) as usize,
            ..self
        }
    }

    /// The lock after the bridge acquired it once more.
    pub open spec fn acquired(self) -> SharedView {
        SharedView {
            lock: match self.lock {
                LockState::Held(n) => LockState::Held((n + 1) as usize),
                _ => LockState::Held(1),
            },
            ..self
        }
    }

    /// The lock after the bridge gave up one acquisition.
    pub open spec fn let_go(self) -> SharedView {
        SharedView {
            lock: match self.lock {
                LockState::Held(n) => if n <= 1 {
                    LockState::Free
                } else {
                    LockState::Held((n - 1) as usize)
                },
                other => other,
            },
            ..self
        }
    }
}

impl BridgeView {
    /// A bridge without types, records or handles, whose table can hold
    /// `limit` handles.
    pub open spec fn empty(limit: usize) -> BridgeView {
        BridgeView {
            limit,
            registry: RegistryView::empty(),
            shared: Seq::empty(),
            scopes: Seq::empty(),
            handles: Seq::empty(),
        }
    }

    /// One where the handle `pending` has lost its stake by its flags but
    /// has not yet given it back to `owner`; zero otherwise.
    pub open spec fn pending_on(self, pending: Option<int>, owner: Owner) -> nat {
        match pending {
            Some(p) => if 0 <= p < self.handles.len() && self.handles[p].target.owner() == owner {
                1
            } else {
                0
            },
            None => 0,
        }
    }

    /// The stakes that the stored count of `owner` must account for.
    pub open spec fn counted(self, pending: Option<int>, owner: Owner) -> nat {
        stakes_on(self.handles, owner) + self.pending_on(pending, owner)
    }

    /// The invariant of one shared cell.
    pub open spec fn shared_ok(self, r: int, pending: Option<int>) -> bool {
        let c = self.shared[r];
        &&& c.strong == c.host + self.counted(pending, Owner::Shared(r as usize))
        &&& c.record is Some <==> c.strong > 0
        &&& c.record matches Some(rec) ==> rec.wf()
        &&& c.lock matches LockState::Held(n) ==> n >= 1
    }

    /// The invariant of one scope.
    pub open spec fn scope_ok(self, s: int, pending: Option<int>) -> bool {
        let c = self.scopes[s];
        &&& c.borrows == self.counted(pending, Owner::Scoped(s as usize))
        &&& c.record matches Some(rec) ==> rec.wf()
    }

    /// The invariant of one handle: its count of children is right, and it
    /// refers to a cell that exists or to an earlier handle of the type
    /// that its projection selects from.
    pub open spec fn handle_ok(self, h: int, pending: Option<int>) -> bool {
        let c = self.handles[h];
        &&& c.children == self.counted(pending, Owner::Handle(h as usize))
        &&& match c.target {
            Target::Shared(r) => r < self.shared.len(),
            Target::Scoped(s) => s < self.scopes.len(),
            Target::Child { parent, projection } => {
                &&& parent < h
                &&& self.handles[parent as int].target.tag() == projection.parent_tag()
                &&& projection matches Projection::Sample(i) ==> i < i64::MAX
            },
        }
    }

    /// The invariant of the bridge while the handle `pending`, if any, is
    /// between losing its stake and giving it back.
    pub open spec fn wf_pending(self, pending: Option<int>) -> bool {
        &&& self.registry.wf()
        &&& self.handles.len() <= self.limit
        &&& self.shared.len() + self.scopes.len() <= self.handles.len()
        &&& pending matches Some(p) ==> 0 <= p < self.handles.len() && !self.handles[p].holds_stake()
        &&& forall|r: int| 0 <= r < self.shared.len() ==> #[trigger] self.shared_ok(r, pending)
        &&& forall|s: int| 0 <= s < self.scopes.len() ==> #[trigger] self.scope_ok(s, pending)
        &&& forall|h: int| 0 <= h < self.handles.len() ==> #[trigger] self.handle_ok(h, pending)
    }

    /// The invariant of the bridge: every stored count is the number of
    /// stakes held, a shared cell holds its record exactly while it has an
    /// owner, and every handle refers to something that exists.
    pub open spec fn wf(self) -> bool {
        self.wf_pending(None)
    }

    /// Whether the handle table can take one more handle.
    pub open spec fn has_room(self) -> bool {
        self.handles.len() < self.limit
    }

    /// Whether the index names a handle whose wrapper is reachable.
    pub open spec fn is_live(self, h: int) -> bool {
        0 <= h < self.handles.len() && self.handles[h].live
    }

    /// The cell at the root of the chain of parents of a handle.
    pub open spec fn root_of(self, h: int) -> Target
        decreases h,
    {
        if 0 <= h < self.handles.len() {
            match self.handles[h].target {
                Target::Child { parent, projection } => if parent < h {
                    self.root_of(parent as int)
                } else {
                    self.handles[h].target
                },
                root => root,
            }
        } else {
            Target::Shared(0)
        }
    }

    /// The state with one more shared cell, owned by one new handle.
    pub open spec fn with_shared_root(self, record: RecordView) -> BridgeView {
        BridgeView {
            shared: self.shared.push(
                SharedView { record: Some(record), strong: 1, host: 0, lock: LockState::Free },
            ),
            handles: self.handles.push(
                HandleCell {
                    target: Target::Shared(self.shared.len() as usize),
                    live: true,
                    children: 0,
                },
            ),
            ..self
        }
    }

    /// The state with one more scope, borrowed by one new handle.
    pub open spec fn with_scoped_root(self, record: RecordView) -> BridgeView {
        BridgeView {
            scopes: self.scopes.push(ScopeView { record: Some(record), borrows: 1 }),
            handles: self.handles.push(
                HandleCell {
                    target: Target::Scoped(self.scopes.len() as usize),
                    live: true,
                    children: 0,
                },
            ),
            ..self
        }
    }

    /// The state after a type was registered; a type that has a table
    /// keeps it.
    pub open spec fn registered(self, type_tag: TypeTag, table: TableView) -> BridgeView {
        if self.registry.table(type_tag) is None {
            BridgeView { registry: self.registry.with_table(type_tag, table), ..self }
        } else {
            self
        }
    }

    /// The handle that wrapping a record returns: the next free index, or
    /// nothing where the mode is that of a child or the table is full.
    pub open spec fn wrap_result(self, mode: OwnershipMode) -> Option<usize> {
        if self.has_room() && mode != OwnershipMode::ChildReference {
            Some(self.handles.len() as usize)
        } else {
            None
        }
    }

    /// The state after wrapping a record.
    pub open spec fn wrapped(self, record: RecordView, mode: OwnershipMode) -> BridgeView {
        if self.wrap_result(mode) is Some {
            match mode {
                OwnershipMode::OwnedShared => self.with_shared_root(record),
                _ => self.with_scoped_root(record),
            }
        } else {
            self
        }
    }

    /// The state with one more handle, a child of `parent`.
    pub open spec fn with_child(self, parent: int, projection: Projection) -> BridgeView {
        let p = self.handles[parent];
        BridgeView {
            handles: self.handles.update(
                parent,
                HandleCell { children: (p.children + 1) as usize, ..p },
            ).push(
                HandleCell {
                    target: Target::Child { parent: parent as usize, projection },
                    live: true,
                    children: 0,
                },
            ),
            ..self
        }
    }

    /// The state after a child of `parent` gave its stake back.
    pub open spec fn child_gone(self, parent: int) -> BridgeView {
        let p = self.handles[parent];
        BridgeView {
            handles: self.handles.update(
                parent,
                HandleCell { children: (p.children - 1) as usize, ..p },
            ),
            ..self
        }
    }

    /// The state after a handle gave its stake on a shared cell back.
    pub open spec fn shared_released(self, r: int) -> BridgeView {
        BridgeView { shared: self.shared.update(r, self.shared[r].released()), ..self }
    }

    /// The state after a handle gave its borrow of a scope back.
    pub open spec fn borrow_returned(self, s: int) -> BridgeView {
        let c = self.scopes[s];
        BridgeView {
            scopes: self.scopes.update(s, ScopeView { borrows: (c.borrows - 1) as usize, ..c }),
            ..self
        }
    }

    /// The state after the handle `cur`, which has lost its stake by its
    /// flags, gave it back: to its shared cell, to its scope, or to its
    /// parent, which then gives its own stake back if that was its last
    /// reason to hold it.
    pub open spec fn drop_stake(self, cur: int) -> BridgeView
        decreases cur,
    {
        if 0 <= cur < self.handles.len() {
            match self.handles[cur].target {
                Target::Shared(r) => self.shared_released(r as int),
                Target::Scoped(s) => self.borrow_returned(s as int),
                Target::Child { parent, projection } => if parent < cur {
                    let next = self.child_gone(parent as int);
                    if next.handles[parent as int].holds_stake() {
                        next
                    } else {
                        next.drop_stake(parent as int)
                    }
                } else {
                    self
                },
            }
        } else {
            self
        }
    }

    /// The state with the wrapper of a handle marked as gone.
    pub open spec fn unwrapped(self, h: int) -> BridgeView {
        BridgeView {
            handles: self.handles.update(h, HandleCell { live: false, ..self.handles[h] }),
            ..self
        }
    }

    /// The state after the runtime finalized the wrapper of a handle. A
    /// second finalization, or one of an index that names no handle,
    /// changes nothing.
    pub open spec fn finalized(self, h: int) -> BridgeView {
        if self.is_live(h) {
            let next = self.unwrapped(h);
            if next.handles[h].holds_stake() {
                next
            } else {
                next.drop_stake(h)
            }
        } else {
            self
        }
    }
}

/// The number of handles whose wrapper is reachable from the script.
pub open spec fn live_count(handles: Seq<HandleCell>) -> nat
    decreases handles.len(),
{
    if handles.len() == 0 {
        0
    } else {
        live_count(handles.drop_last()) + if handles.last().live {
            1nat
        } else {
            0nat
        }
    }
}

/// Adding a root handle with its cell keeps the invariant.
pub proof fn lemma_shared_root_wf(b: BridgeView, record: RecordView)
    requires
        b.wf(),
        record.wf(),
        b.has_room(),
    ensures
        b.with_shared_root(record).wf(),
{
    let a = b.with_shared_root(record);
    let cell = a.handles[b.handles.len() as int];
    assert forall|r: int| 0 <= r < a.shared.len() implies #[trigger] a.shared_ok(r, None) by {
        lemma_stakes_push(b.handles, cell, Owner::Shared(r as usize));
        if r < b.shared.len() {
            assert(b.shared_ok(r, None));
        } else {
            lemma_no_stake_beyond(b, Owner::Shared(r as usize));
        }
    }
    assert forall|s: int| 0 <= s < a.scopes.len() implies #[trigger] a.scope_ok(s, None) by {
        lemma_stakes_push(b.handles, cell, Owner::Scoped(s as usize));
        assert(b.scope_ok(s, None));
    }
    assert forall|h: int| 0 <= h < a.handles.len() implies #[trigger] a.handle_ok(h, None) by {
        lemma_stakes_push(b.handles, cell, Owner::Handle(h as usize));
        if h < b.handles.len() {
            assert(b.handle_ok(h, None));
        } else {
            lemma_no_stake_beyond(b, Owner::Handle(h as usize));
        }
    }
}

/// Adding a borrowed root handle with its scope keeps the invariant.
pub proof fn lemma_scoped_root_wf(b: BridgeView, record: RecordView)
    requires
        b.wf(),
        record.wf(),
        b.has_room(),
    ensures
        b.with_scoped_root(record).wf(),
{
    let a = b.with_scoped_root(record);
    let cell = a.handles[b.handles.len() as int];
    assert forall|r: int| 0 <= r < a.shared.len() implies #[trigger] a.shared_ok(r, None) by {
        lemma_stakes_push(b.handles, cell, Owner::Shared(r as usize));
        assert(b.shared_ok(r, None));
    }
    assert forall|s: int| 0 <= s < a.scopes.len() implies #[trigger] a.scope_ok(s, None) by {
        lemma_stakes_push(b.handles, cell, Owner::Scoped(s as usize));
        if s < b.scopes.len() {
            assert(b.scope_ok(s, None));
        } else {
            lemma_no_stake_beyond(b, Owner::Scoped(s as usize));
        }
    }
    assert forall|h: int| 0 <= h < a.handles.len() implies #[trigger] a.handle_ok(h, None) by {
        lemma_stakes_push(b.handles, cell, Owner::Handle(h as usize));
        if h < b.handles.len() {
            assert(b.handle_ok(h, None));
        } else {
            lemma_no_stake_beyond(b, Owner::Handle(h as usize));
        }
    }
}

/// No handle holds a stake on a cell or a handle that does not exist yet.
pub proof fn lemma_no_stake_beyond(b: BridgeView, owner: Owner)
    requires
        b.wf(),
        match owner {
            Owner::Shared(r) => r >= b.shared.len(),
            Owner::Scoped(s) => s >= b.scopes.len(),
            Owner::Handle(h) => h >= b.handles.len(),
        },
    ensures
        stakes_on(b.handles, owner) == 0,
{
    crate::cell::lemma_stakes_none(b.handles, owner);
    assert forall|i: int| 0 <= i < b.handles.len() implies !(#[trigger] b.handles[i]).stakes(
        owner,
    ) by {
        assert(b.handle_ok(i, None));
    }
}

/// Replacing a cell by one that holds the same stake changes no count.
pub proof fn lemma_same_stake(handles: Seq<HandleCell>, at: int, cell: HandleCell)
    requires
        0 <= at < handles.len(),
        cell.target == handles[at].target,
        cell.holds_stake() == handles[at].holds_stake(),
    ensures
        forall|o: Owner| stakes_on(handles.update(at, cell), o) == #[trigger] stakes_on(handles, o),
{
    assert forall|o: Owner| stakes_on(handles.update(at, cell), o) == #[trigger] stakes_on(
        handles,
        o,
    ) by {
        lemma_stakes_update(handles, at, cell, o);
    }
}

/// Replacing a cell that holds its stake by one that does not takes one
/// stake from its owner and changes no other count.
pub proof fn lemma_lost_stake(handles: Seq<HandleCell>, at: int, cell: HandleCell)
    requires
        0 <= at < handles.len(),
        cell.target == handles[at].target,
        handles[at].holds_stake(),
        !cell.holds_stake(),
    ensures
        forall|o: Owner|
            #[trigger] stakes_on(handles, o) == stakes_on(handles.update(at, cell), o) + if o
                == cell.target.owner() {
                1nat
            } else {
                0nat
            },
{
    assert forall|o: Owner|
        #[trigger] stakes_on(handles, o) == stakes_on(handles.update(at, cell), o) + if o
            == cell.target.owner() {
            1nat
        } else {
            0nat
        } by {
        lemma_stakes_update(handles, at, cell, o);
    }
}

/// Adding a child handle keeps the invariant.
pub proof fn lemma_child_wf(b: BridgeView, parent: int, projection: Projection)
    requires
        b.wf(),
        0 <= parent < b.handles.len(),
        b.handles[parent].holds_stake(),
        b.handles[parent].target.tag() == projection.parent_tag(),
        projection matches Projection::Sample(i) ==> i < i64::MAX,
        b.has_room(),
    ensures
        b.handles[parent].children < usize::MAX,
        b.with_child(parent, projection).wf(),
{
    let p = b.handles[parent];
    assert(b.handle_ok(parent, None));
    lemma_stakes_bound(b.handles, Owner::Handle(parent as usize));
    let changed = HandleCell { children: (p.children + 1) as usize, ..p };
    let mid = b.handles.update(parent, changed);
    let child = HandleCell {
        target: Target::Child { parent: parent as usize, projection },
        live: true,
        children: 0,
    };
    let a = b.with_child(parent, projection);
    lemma_same_stake(b.handles, parent, changed);
    assert forall|o: Owner| stakes_on(a.handles, o) == #[trigger] stakes_on(b.handles, o)
        + stake_of(child, o) by {
        lemma_stakes_push(mid, child, o);
    }
    assert forall|r: int| 0 <= r < a.shared.len() implies #[trigger] a.shared_ok(r, None) by {
        assert(b.shared_ok(r, None));
    }
    assert forall|s: int| 0 <= s < a.scopes.len() implies #[trigger] a.scope_ok(s, None) by {
        assert(b.scope_ok(s, None));
    }
    assert forall|h: int| 0 <= h < a.handles.len() implies #[trigger] a.handle_ok(h, None) by {
        if h < b.handles.len() {
            assert(b.handle_ok(h, None));
        } else {
            lemma_no_stake_beyond(b, Owner::Handle(h as usize));
        }
    }
}

/// Marking the wrapper of a live handle as gone keeps the invariant where
/// children still refer to the handle, and leaves the handle pending where
/// none does.
pub proof fn lemma_unwrapped_wf(b: BridgeView, h: int)
    requires
        b.wf(),
        b.is_live(h),
    ensures
        b.handles[h].children > 0 ==> b.unwrapped(h).wf(),
        b.handles[h].children == 0 ==> b.unwrapped(h).wf_pending(Some(h)),
{
    let c = b.handles[h];
    let c2 = HandleCell { live: false, ..c };
    let a = b.unwrapped(h);
    let pending = if c.children > 0 {
        None
    } else {
        Some(h)
    };
    if c.children > 0 {
        lemma_same_stake(b.handles, h, c2);
    } else {
        lemma_lost_stake(b.handles, h, c2);
    }
    assert forall|r: int| 0 <= r < a.shared.len() implies #[trigger] a.shared_ok(r, pending) by {
        assert(b.shared_ok(r, None));
    }
    assert forall|s: int| 0 <= s < a.scopes.len() implies #[trigger] a.scope_ok(s, pending) by {
        assert(b.scope_ok(s, None));
    }
    assert forall|k: int| 0 <= k < a.handles.len() implies #[trigger] a.handle_ok(k, pending) by {
        assert(b.handle_ok(k, None));
    }
}

/// One step of giving a stake back: the pending handle returns it to its
/// shared cell or its scope, which restores the invariant, or to its parent,
/// which restores it unless the parent has thereby lost its own stake and is
/// pending in turn.
pub proof fn lemma_drop_step(b: BridgeView, cur: int)
    requires
        b.wf_pending(Some(cur)),
    ensures
        match b.handles[cur].target {
            Target::Shared(r) => r < b.shared.len() && b.shared[r as int].strong >= 1
                && b.shared_released(r as int).wf(),
            Target::Scoped(s) => s < b.scopes.len() && b.scopes[s as int].borrows >= 1
                && b.borrow_returned(s as int).wf(),
            Target::Child { parent, projection } => {
                &&& parent < cur
                &&& b.handles[parent as int].children >= 1
                &&& if b.child_gone(parent as int).handles[parent as int].holds_stake() {
                    b.child_gone(parent as int).wf()
                } else {
                    b.child_gone(parent as int).wf_pending(Some(parent as int))
                }
            },
        },
{
    assert(b.handle_ok(cur, Some(cur)));
    match b.handles[cur].target {
        Target::Shared(r) => {
            let a = b.shared_released(r as int);
            assert(b.shared_ok(r as int, Some(cur)));
            assert forall|q: int| 0 <= q < a.shared.len() implies #[trigger] a.shared_ok(
                q,
                None,
            ) by {
                assert(b.shared_ok(q, Some(cur)));
            }
            assert forall|s: int| 0 <= s < a.scopes.len() implies #[trigger] a.scope_ok(
                s,
                None,
            ) by {
                assert(b.scope_ok(s, Some(cur)));
            }
            assert forall|k: int| 0 <= k < a.handles.len() implies #[trigger] a.handle_ok(
                k,
                None,
            ) by {
                assert(b.handle_ok(k, Some(cur)));
            }
        },
        Target::Scoped(s) => {
            let a = b.borrow_returned(s as int);
            assert(b.scope_ok(s as int, Some(cur)));
            assert forall|q: int| 0 <= q < a.shared.len() implies #[trigger] a.shared_ok(
                q,
                None,
            ) by {
                assert(b.shared_ok(q, Some(cur)));
            }
            assert forall|t: int| 0 <= t < a.scopes.len() implies #[trigger] a.scope_ok(
                t,
                None,
            ) by {
                assert(b.scope_ok(t, Some(cur)));
            }
            assert forall|k: int| 0 <= k < a.handles.len() implies #[trigger] a.handle_ok(
                k,
                None,
            ) by {
                assert(b.handle_ok(k, Some(cur)));
            }
        },
        Target::Child { parent, projection } => {
            let p = b.handles[parent as int];
            assert(b.handle_ok(parent as int, Some(cur)));
            let changed = HandleCell { children: (p.children - 1) as usize, ..p };
            let a = b.child_gone(parent as int);
            let pending = if changed.holds_stake() {
                None
            } else {
                Some(parent as int)
            };
            if changed.holds_stake() {
                lemma_same_stake(b.handles, parent as int, changed);
            } else {
                lemma_lost_stake(b.handles, parent as int, changed);
            }
            assert forall|q: int| 0 <= q < a.shared.len() implies #[trigger] a.shared_ok(
                q,
                pending,
            ) by {
                assert(b.shared_ok(q, Some(cur)));
            }
            assert forall|t: int| 0 <= t < a.scopes.len() implies #[trigger] a.scope_ok(
                t,
                pending,
            ) by {
                assert(b.scope_ok(t, Some(cur)));
            }
            assert forall|k: int| 0 <= k < a.handles.len() implies #[trigger] a.handle_ok(
                k,
                pending,
            ) by {
                assert(b.handle_ok(k, Some(cur)));
            }
        },
    }
}

/// Giving the stake of a pending handle back restores the invariant.
pub proof fn lemma_drop_stake_wf(b: BridgeView, cur: int)
    requires
        b.wf_pending(Some(cur)),
    ensures
        b.drop_stake(cur).wf(),
    decreases cur,
{
    lemma_drop_step(b, cur);
    match b.handles[cur].target {
        Target::Child { parent, projection } => {
            let next = b.child_gone(parent as int);
            if !next.handles[parent as int].holds_stake() {
                lemma_drop_stake_wf(next, parent as int);
            }
        },
        _ => {},
    }
}

/// Finalization keeps the invariant.
pub proof fn lemma_finalized_wf(b: BridgeView, h: int)
    requires
        b.wf(),
    ensures
        b.finalized(h).wf(),
{
    if b.is_live(h) {
        lemma_unwrapped_wf(b, h);
        if b.handles[h].children == 0 {
            lemma_drop_stake_wf(b.unwrapped(h), h);
        }
    }
}

} // verus!
