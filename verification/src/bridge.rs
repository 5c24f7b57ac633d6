//! The bridge: the type registry, the cells that own the records, and the
//! handle table through which a script reaches them.

use vstd::prelude::*;
use vstd::string::*;
use crate::access::{
    args_view, assign, extent, invoke, invoked, read, value_view, written, Fetched, FetchedView,
};
use crate::cell::{HandleCell, LockState, OwnershipMode, Projection, Target};
use crate::descriptor::{Buffer, DescriptorTable, TableView, TypeTag};
use crate::dispatch::{
    check_part, element_at, index_slot, lemma_enter_then_leave, lemma_host_stake_wf,
    lemma_root_alive, lemma_scope_ended_wf, lemma_with_lock_wf, lemma_with_record_wf, length_slot,
    part_error,
};
use crate::error::{done_view, BridgeError, ErrorView};
use crate::machine::{lemma_step_wf, Step};
use crate::model::{
    lemma_child_wf, lemma_drop_step, lemma_scoped_root_wf, lemma_shared_root_wf, lemma_unwrapped_wf,
    live_count, BridgeView, RegistryView, ScopeView, SharedView,
};
use crate::record::{Record, RecordView};
use crate::text::texts;
use crate::tables::{
    buffer_table, buffer_table_view, info_table, info_table_view, record_table, record_table_view,
};
use crate::value::Value;

verus! {

/// The content of a record that may be absent.
pub open spec fn record_view(record: Option<Record>) -> Option<RecordView> {
    match record {
        Some(r) => Some(r@),
        None => None,
    }
}

/// The content of a table that may be absent.
pub open spec fn table_view(table: Option<DescriptorTable>) -> Option<TableView> {
    match table {
        Some(t) => Some(t@),
        None => None,
    }
}

struct SharedCell {
    record: Option<Record>,
    strong: usize,
    host: usize,
    lock: LockState,
}

struct ScopeCell {
    record: Option<Record>,
    borrows: usize,
}

struct Registry {
    record: Option<DescriptorTable>,
    info: Option<DescriptorTable>,
    genotypes: Option<DescriptorTable>,
    sample: Option<DescriptorTable>,
}

impl View for SharedCell {
    type V = SharedView;

    closed spec fn view(&self) -> SharedView {
        SharedView {
            record: record_view(self.record),
            strong: self.strong,
            host: self.host,
            lock: self.lock,
        }
    }
}

impl View for ScopeCell {
    type V = ScopeView;

    closed spec fn view(&self) -> ScopeView {
        ScopeView { record: record_view(self.record), borrows: self.borrows }
    }
}

impl View for Registry {
    type V = RegistryView;

    closed spec fn view(&self) -> RegistryView {
        RegistryView {
            record: table_view(self.record),
            info: table_view(self.info),
            genotypes: table_view(self.genotypes),
            sample: table_view(self.sample),
        }
    }
}

/// One bridge per instance of the scripting runtime.
pub struct Bridge {
    limit: usize,
    registry: Registry,
    shared: Vec<SharedCell>,
    scopes: Vec<ScopeCell>,
    handles: Vec<HandleCell>,
}

impl View for Bridge {
    type V = BridgeView;

    closed spec fn view(&self) -> BridgeView {
        BridgeView {
            limit: self.limit,
            registry: self.registry@,
            shared: self.shared@.map_values(|c: SharedCell| c@),
            scopes: self.scopes@.map_values(|c: ScopeCell| c@),
            handles: self.handles@,
        }
    }
}

impl Bridge {
    /// Whether the bridge meets its invariant.
    pub open spec fn wf(&self) -> bool {
        self@.wf()
    }

    /// A bridge without types, records or handles, whose table can hold as
    /// many handles as the machine can count.
    pub fn new() -> (out: Bridge)
        ensures
            out.wf(),
            out@ == BridgeView::empty(usize::MAX),
    {
        Bridge::with_limit(usize::MAX)
    }

    /// A bridge without types, records or handles, whose table can hold
    /// `limit` handles, finalized ones included. The limit bounds what a
    /// script can make the host keep.
    pub fn with_limit(limit: usize) -> (out: Bridge)
        ensures
            out.wf(),
            out@ == BridgeView::empty(limit),
    {
        let out = Bridge {
            limit,
            registry: Registry { record: None, info: None, genotypes: None, sample: None },
            shared: Vec::new(),
            scopes: Vec::new(),
            handles: Vec::new(),
        };
        assert(out@.shared =~= Seq::empty());
        assert(out@.scopes =~= Seq::empty());
        out
    }

    /// Binds a descriptor table to a type. A type is registered once: for a
    /// type that has a table the call changes nothing and returns `false`.
    pub fn register_type(&mut self, type_tag: TypeTag, table: DescriptorTable) -> (out: bool)
        requires
            old(self).wf(),
            table.wf(),
        ensures
            final(self).wf(),
            out == old(self)@.registry.table(type_tag).is_none(),
            final(self)@ == old(self)@.registered(type_tag, table@),
    {
        let taken = match type_tag {
            TypeTag::Record => self.registry.record.is_some(),
            TypeTag::Info => self.registry.info.is_some(),
            TypeTag::Genotypes => self.registry.genotypes.is_some(),
            TypeTag::Sample => self.registry.sample.is_some(),
        };
        if taken {
            return false;
        }
        match type_tag {
            TypeTag::Record => {
                self.registry.record = Some(table);
            },
            TypeTag::Info => {
                self.registry.info = Some(table);
            },
            TypeTag::Genotypes => {
                self.registry.genotypes = Some(table);
            },
            TypeTag::Sample => {
                self.registry.sample = Some(table);
            },
        }
        proof {
            lemma_step_wf(old(self)@, Step::RegisterType { type_tag, table: table@ });
        }
        true
    }

    /// Exposes a record to the script and returns its handle. With
    /// `OwnedShared` the record moves into a new shared cell, of which the
    /// handle is the first owner; with `BorrowedScoped` it is lent for a new
    /// scope, which lasts until [`Bridge::end_scope`]. A record is never
    /// wrapped as a child: with `ChildReference`, or where the handle table
    /// is full, the call changes nothing and returns `None`.
    pub fn wrap(&mut self, record: Record, mode: OwnershipMode) -> (out: Option<usize>)
        requires
            old(self).wf(),
            record.wf(),
        ensures
            final(self).wf(),
            out == old(self)@.wrap_result(mode),
            final(self)@ == old(self)@.wrapped(record@, mode),
    {
        let handle = self.handles.len();
        if handle >= self.limit {
            return None;
        }
        match mode {
            OwnershipMode::OwnedShared => {
                let root = self.shared.len();
                self.shared.push(
                    SharedCell { record: Some(record), strong: 1, host: 0, lock: LockState::Free },
                );
                self.handles.push(
                    HandleCell { target: Target::Shared(root), live: true, children: 0 },
                );
                proof {
                    assert(self@.shared =~= old(self)@.with_shared_root(record@).shared);
                    lemma_shared_root_wf(old(self)@, record@);
                }
                Some(handle)
            },
            OwnershipMode::BorrowedScoped => {
                let scope = self.scopes.len();
                self.scopes.push(ScopeCell { record: Some(record), borrows: 1 });
                self.handles.push(
                    HandleCell { target: Target::Scoped(scope), live: true, children: 0 },
                );
                proof {
                    assert(self@.scopes =~= old(self)@.with_scoped_root(record@).scopes);
                    lemma_scoped_root_wf(old(self)@, record@);
                }
                Some(handle)
            },
            OwnershipMode::ChildReference => None,
        }
    }

    /// Tells the bridge that the runtime found the wrapper of a handle
    /// unreachable. The first call for a handle marks its wrapper as gone;
    /// if no child refers to the handle, its stake goes back to what it
    /// refers to, and so on up the chain of parents. A shared cell that
    /// loses its last owner drops its record. Returns whether this call was
    /// the first for a handle: a later call, or one with an index that names
    /// no handle, changes nothing and returns `false`.
    pub fn finalize(&mut self, handle: usize) -> (out: bool)
        requires
            old(self).wf(),
        ensures
            final(self).wf(),
            out == old(self)@.is_live(handle as int),
            final(self)@ == old(self)@.finalized(handle as int),
    {
        if handle >= self.handles.len() || !self.handles[handle].live {
            return false;
        }
        self.handles[handle].live = false;
        proof {
            lemma_unwrapped_wf(old(self)@, handle as int);
        }
        if self.handles[handle].children > 0 {
            return true;
        }
        let ghost goal = old(self)@.finalized(handle as int);
        let mut cur: usize = handle;
        loop
            invariant_except_break
                self@.wf_pending(Some(cur as int)),
                cur < self.handles.len(),
                self@.drop_stake(cur as int) == goal,
            ensures
                self@.wf(),
                self@ == goal,
            decreases cur,
        {
            let ghost before = self@;
            proof {
                lemma_drop_step(before, cur as int);
            }
            match self.handles[cur].target {
                Target::Shared(r) => {
                    self.shared[r].strong = self.shared[r].strong - 1;
                    if self.shared[r].strong == 0 {
                        self.shared[r].record = None;
                    }
                    assert(self@.shared =~= before.shared_released(r as int).shared);
                    break ;
                },
                Target::Scoped(s) => {
                    self.scopes[s].borrows = self.scopes[s].borrows - 1;
                    assert(self@.scopes =~= before.borrow_returned(s as int).scopes);
                    break ;
                },
                Target::Child { parent, projection } => {
                    self.handles[parent].children = self.handles[parent].children - 1;
                    if self.handles[parent].has_stake() {
                        break ;
                    }
                    cur = parent;
                },
            }
        }
        true
    }

    /// The cell at the root of the chain of parents of a handle.
    fn resolve(&self, handle: usize) -> (out: Target)
        requires
            self.wf(),
            handle < self@.handles.len(),
            self@.handles[handle as int].holds_stake(),
        ensures
            out == self@.root_of(handle as int),
            match out {
                Target::Shared(r) => r < self.shared.len() && self.shared[r as int].record is Some
                    && self.shared[r as int].record.unwrap().wf(),
                Target::Scoped(s) => s < self.scopes.len() && (
                self.scopes[s as int].record matches Some(rec) ==> rec.wf()),
                Target::Child { .. } => false,
            },
    {
        let mut cur: usize = handle;
        loop
            invariant
                self.wf(),
                cur < self.handles.len(),
                handle < self.handles.len(),
                self@.handles[handle as int].holds_stake(),
                self@.root_of(cur as int) == self@.root_of(handle as int),
            decreases cur,
        {
            proof {
                lemma_root_alive(self@, handle as int);
            }
            match self.handles[cur].target {
                Target::Child { parent, projection } => {
                    cur = parent;
                },
                root => {
                    return root;
                },
            }
        }
    }

    /// The table registered for a type.
    fn table(&self, type_tag: TypeTag) -> (out: Option<&DescriptorTable>)
        ensures
            match out {
                Some(t) => self@.registry.table(type_tag) == Some(t@),
                None => self@.registry.table(type_tag).is_none(),
            },
    {
        match type_tag {
            TypeTag::Record => self.registry.record.as_ref(),
            TypeTag::Info => self.registry.info.as_ref(),
            TypeTag::Genotypes => self.registry.genotypes.as_ref(),
            TypeTag::Sample => self.registry.sample.as_ref(),
        }
    }

    /// Resolves a handle for the duration of one call: finds the cell at the
    /// root of its chain of parents and, for a shared cell, acquires its
    /// lock. A lock that the bridge already holds, because an outer call on
    /// the same cell is in progress, is reused and counted, not acquired
    /// again. Every successful call is to be paired with one
    /// [`Bridge::leave`] on the root that it returned.
    pub fn enter(&mut self, handle: usize) -> (out: Result<Target, BridgeError>)
        requires
            old(self).wf(),
        ensures
            final(self).wf(),
            match out {
                Ok(root) => old(self)@.enter_result(handle as int) == Ok::<Target, ErrorView>(
                    root,
                ),
                Err(e) => old(self)@.enter_result(handle as int) == Err::<Target, ErrorView>(e@),
            },
            final(self)@ == old(self)@.entered(handle as int),
    {
        if handle >= self.handles.len() || !self.handles[handle].live {
            return Err(BridgeError::StaleHandle);
        }
        let root = self.resolve(handle);
        match root {
            Target::Shared(r) => {
                let depth: usize = match self.shared[r].lock {
                    LockState::Free => 0,
                    LockState::Held(n) => {
                        if n == usize::MAX {
                            return Err(BridgeError::Busy);
                        }
                        n
                    },
                    LockState::HostHeld => {
                        return Err(BridgeError::Busy);
                    },
                    LockState::Poisoned => {
                        return Err(BridgeError::LockFailed);
                    },
                };
                proof {
                    lemma_enter_then_leave(old(self)@, handle as int);
                }
                self.shared[r].lock = LockState::Held(depth + 1);
                assert(self@.shared =~= old(self)@.entered(handle as int).shared);
                Ok(root)
            },
            Target::Scoped(s) => {
                if self.scopes[s].record.is_none() {
                    return Err(BridgeError::Expired);
                }
                Ok(root)
            },
            Target::Child { .. } => Err(BridgeError::StaleHandle),
        }
    }

    /// Ends the resolution that [`Bridge::enter`] began: gives up one
    /// acquisition of the lock of a shared cell, and frees the lock with the
    /// last one. A root that names no shared cell, or a lock that the bridge
    /// does not hold, is left as it is.
    pub fn leave(&mut self, root: Target)
        requires
            old(self).wf(),
        ensures
            final(self).wf(),
            final(self)@ == old(self)@.left(root),
    {
        match root {
            Target::Shared(r) => {
                if r < self.shared.len() {
                    let next = match self.shared[r].lock {
                        LockState::Held(n) => if n <= 1 {
                            LockState::Free
                        } else {
                            LockState::Held(n - 1)
                        },
                        other => other,
                    };
                    proof {
                        lemma_with_lock_wf(old(self)@, r as int, next);
                    }
                    self.shared[r].lock = next;
                    assert(self@.shared =~= old(self)@.left(root).shared);
                }
            },
            _ => {},
        }
    }

    /// The record in the cell at a root.
    fn record(&self, root: Target) -> (out: Option<&Record>)
        requires
            match root {
                Target::Shared(r) => r < self.shared.len(),
                Target::Scoped(s) => s < self.scopes.len(),
                Target::Child { .. } => true,
            },
        ensures
            match root {
                Target::Shared(r) => record_view(self.shared[r as int].record) == match out {
                    Some(rec) => Some(rec@),
                    None => None,
                },
                Target::Scoped(s) => record_view(self.scopes[s as int].record) == match out {
                    Some(rec) => Some(rec@),
                    None => None,
                },
                Target::Child { .. } => out.is_none(),
            },
    {
        match root {
            Target::Shared(r) => self.shared[r].record.as_ref(),
            Target::Scoped(s) => self.scopes[s].record.as_ref(),
            Target::Child { .. } => None,
        }
    }

    /// Hands what an accessor fetched to the script: a value as it is, a
    /// part as the handle of a new child of `handle`, a copy as the handle
    /// of a new shared cell.
    fn deliver(&mut self, handle: usize, fetched: Fetched) -> (out: Result<Value, BridgeError>)
        requires
            old(self).wf(),
            old(self)@.is_live(handle as int),
            fetched@ matches FetchedView::Child(p) ==> old(self)@.handles[handle as int].target.tag()
                == p.parent_tag() && (p matches Projection::Sample(i) ==> i < i64::MAX),
            fetched@ matches FetchedView::Copy(r) ==> r.wf(),
        ensures
            final(self).wf(),
            value_view(out) == old(self)@.delivered(Ok(fetched@)),
            final(self)@ == old(self)@.after_delivery(handle as int, Ok(fetched@)),
    {
        match fetched {
            Fetched::Value(v) => Ok(v),
            Fetched::Child(p) => {
                let child = self.handles.len();
                if child >= self.limit {
                    return Err(BridgeError::Exhausted);
                }
                proof {
                    lemma_child_wf(old(self)@, handle as int, p);
                }
                self.handles[handle].children = self.handles[handle].children + 1;
                self.handles.push(
                    HandleCell {
                        target: Target::Child { parent: handle, projection: p },
                        live: true,
                        children: 0,
                    },
                );
                Ok(Value::Handle(child))
            },
            Fetched::Copy(record) => match self.wrap(record, OwnershipMode::OwnedShared) {
                Some(copy) => Ok(Value::Handle(copy)),
                None => Err(BridgeError::Exhausted),
            },
        }
    }

    /// Reads a property of the object of a handle. The name is looked up in
    /// the table of the handle's type; the handle is resolved to its record,
    /// under the lock of a shared cell; the getter runs; a value goes to the
    /// script as it is, a part of the object as the handle of a new child
    /// that refers to `handle`. The lock is as it was when the call returns.
    pub fn get_property(&mut self, handle: usize, name: &str) -> (out: Result<Value, BridgeError>)
        requires
            old(self).wf(),
        ensures
            final(self).wf(),
            value_view(out) == old(self)@.get_result(handle as int, name@),
            final(self)@ == old(self)@.after_get(handle as int, name@),
    {
        if handle >= self.handles.len() || !self.handles[handle].live {
            return Err(BridgeError::StaleHandle);
        }
        let part = self.handles[handle].part();
        let type_tag = self.handles[handle].type_tag();
        let found = match self.table(type_tag) {
            Some(t) => t.field(name),
            None => None,
        };
        let getter = match found {
            Some((getter, _)) => getter,
            None => {
                return Err(BridgeError::UnknownField { name: String::from_str(name), type_tag });
            },
        };
        let root = match self.enter(handle) {
            Ok(root) => root,
            Err(e) => {
                return Err(e);
            },
        };
        proof {
            lemma_enter_then_leave(old(self)@, handle as int);
            lemma_root_alive(old(self)@, handle as int);
            lemma_root_alive(self@, handle as int);
        }
        let fetched = match self.record(root) {
            Some(record) => match check_part(record, part) {
                Ok(_) => read(record, part, getter),
                Err(e) => Err(e),
            },
            None => Err(BridgeError::Expired),
        };
        self.leave(root);
        match fetched {
            Ok(f) => self.deliver(handle, f),
            Err(e) => Err(e),
        }
    }

    /// Writes a property of the object of a handle. The name is looked up
    /// in the table of the handle's type and must have a setter; the handle
    /// is resolved to its record, under the lock of a shared cell; the
    /// setter validates the value and changes the record. Where any step
    /// fails the record is as it was.
    pub fn set_property(&mut self, handle: usize, name: &str, value: &Value) -> (out: Result<
        (),
        BridgeError,
    >)
        requires
            old(self).wf(),
        ensures
            final(self).wf(),
            done_view(out) == old(self)@.set_result(handle as int, name@, value@),
            final(self)@ == old(self)@.after_set(handle as int, name@, value@),
    {
        if handle >= self.handles.len() || !self.handles[handle].live {
            return Err(BridgeError::StaleHandle);
        }
        let part = self.handles[handle].part();
        let type_tag = self.handles[handle].type_tag();
        let found = match self.table(type_tag) {
            Some(t) => t.field(name),
            None => None,
        };
        let setter = match found {
            Some((_, Some(setter))) => setter,
            Some((_, None)) => {
                return Err(BridgeError::ReadOnly { name: String::from_str(name) });
            },
            None => {
                return Err(BridgeError::UnknownField { name: String::from_str(name), type_tag });
            },
        };
        let root = match self.enter(handle) {
            Ok(root) => root,
            Err(e) => {
                return Err(e);
            },
        };
        proof {
            lemma_enter_then_leave(old(self)@, handle as int);
            lemma_root_alive(old(self)@, handle as int);
            lemma_root_alive(self@, handle as int);
        }
        let ghost entered = self@;
        let ghost before = old(self)@.record_at(root);
        let done = match root {
            Target::Shared(r) => match &mut self.shared[r].record {
                Some(record) => match check_part(record, part) {
                    Ok(_) => assign(record, part, setter, value),
                    Err(e) => Err(e),
                },
                None => Err(BridgeError::Expired),
            },
            Target::Scoped(s) => match &mut self.scopes[s].record {
                Some(record) => match check_part(record, part) {
                    Ok(_) => assign(record, part, setter, value),
                    Err(e) => Err(e),
                },
                None => Err(BridgeError::Expired),
            },
            Target::Child { .. } => Err(BridgeError::StaleHandle),
        };
        proof {
            let after = if part_error(before, part) is None {
                written(before, part, setter, value@)
            } else {
                before
            };
            match root {
                Target::Shared(r) => {
                    assert(self@.shared =~= entered.with_record(root, after).shared);
                },
                Target::Scoped(s) => {
                    assert(self@.scopes =~= entered.with_record(root, after).scopes);
                },
                Target::Child { .. } => {},
            }
            lemma_with_record_wf(entered, root, after);
        }
        self.leave(root);
        proof {
            let target = old(self)@.after_set(handle as int, name@, value@);
            assert(self@.shared =~= target.shared);
            assert(self@.scopes =~= target.scopes);
        }
        done
    }

    /// Reads the element at a 1-based script index of the object of a
    /// handle whose type has the reserved index slot. The index is
    /// translated to the host's 0-based index here and nowhere else. A row
    /// of the genotype matrix goes to the script as the handle of a new
    /// child, a call as a value.
    pub fn get_index(&mut self, handle: usize, index: i64) -> (out: Result<Value, BridgeError>)
        requires
            old(self).wf(),
        ensures
            final(self).wf(),
            value_view(out) == old(self)@.index_result(handle as int, index),
            final(self)@ == old(self)@.after_index(handle as int, index),
    {
        if handle >= self.handles.len() || !self.handles[handle].live {
            return Err(BridgeError::StaleHandle);
        }
        let part = self.handles[handle].part();
        let type_tag = self.handles[handle].type_tag();
        let found = match self.table(type_tag) {
            Some(t) => t.buffer(),
            None => None,
        };
        let buffer = match found {
            Some(buffer) => buffer,
            None => {
                proof {
                    reveal_strlit("index");
                }
                assert("index"@ =~= index_slot());
                return Err(BridgeError::UnknownField { name: String::from_str("index"), type_tag });
            },
        };
        let root = match self.enter(handle) {
            Ok(root) => root,
            Err(e) => {
                return Err(e);
            },
        };
        proof {
            lemma_enter_then_leave(old(self)@, handle as int);
            lemma_root_alive(old(self)@, handle as int);
            lemma_root_alive(self@, handle as int);
        }
        let fetched = match self.record(root) {
            Some(record) => match check_part(record, part) {
                Ok(_) => element_at(record, part, buffer, index),
                Err(e) => Err(e),
            },
            None => Err(BridgeError::Expired),
        };
        self.leave(root);
        match fetched {
            Ok(f) => self.deliver(handle, f),
            Err(e) => Err(e),
        }
    }

    /// Reads the number of elements of the object of a handle whose type
    /// has the reserved length slot.
    pub fn length(&mut self, handle: usize) -> (out: Result<Value, BridgeError>)
        requires
            old(self).wf(),
        ensures
            final(self).wf(),
            value_view(out) == old(self)@.length_result(handle as int),
            final(self)@ == old(self)@,
    {
        if handle >= self.handles.len() || !self.handles[handle].live {
            return Err(BridgeError::StaleHandle);
        }
        let part = self.handles[handle].part();
        let type_tag = self.handles[handle].type_tag();
        let found = match self.table(type_tag) {
            Some(t) => t.buffer(),
            None => None,
        };
        let buffer = match found {
            Some(buffer) => buffer,
            None => {
                proof {
                    reveal_strlit("length");
                }
                assert("length"@ =~= length_slot());
                return Err(
                    BridgeError::UnknownField { name: String::from_str("length"), type_tag },
                );
            },
        };
        let root = match self.enter(handle) {
            Ok(root) => root,
            Err(e) => {
                return Err(e);
            },
        };
        proof {
            lemma_enter_then_leave(old(self)@, handle as int);
            lemma_root_alive(old(self)@, handle as int);
            lemma_root_alive(self@, handle as int);
        }
        let counted = match self.record(root) {
            Some(record) => match check_part(record, part) {
                Ok(_) => extent(record, part, buffer),
                Err(e) => Err(e),
            },
            None => Err(BridgeError::Expired),
        };
        self.leave(root);
        match counted {
            Ok(n) => Ok(
                Value::Int(
                    if (n as u64) <= (i64::MAX as u64) {
                        n as i64
                    } else {
                        i64::MAX
                    },
                ),
            ),
            Err(e) => Err(e),
        }
    }

    /// Calls a method of the object of a handle. The name is looked up in
    /// the table of the handle's type; the handle is resolved to its record,
    /// under the lock of a shared cell; the method runs on the arguments.
    /// Where any step fails the record is as it was.
    pub fn call_method(&mut self, handle: usize, name: &str, args: &Vec<Value>) -> (out: Result<
        Value,
        BridgeError,
    >)
        requires
            old(self).wf(),
        ensures
            final(self).wf(),
            value_view(out) == old(self)@.call_result(handle as int, name@, args_view(args@)),
            final(self)@ == old(self)@.after_call(handle as int, name@, args_view(args@)),
    {
        if handle >= self.handles.len() || !self.handles[handle].live {
            return Err(BridgeError::StaleHandle);
        }
        let part = self.handles[handle].part();
        let type_tag = self.handles[handle].type_tag();
        let found = match self.table(type_tag) {
            Some(t) => t.method(name),
            None => None,
        };
        let method = match found {
            Some(method) => method,
            None => {
                return Err(BridgeError::UnknownField { name: String::from_str(name), type_tag });
            },
        };
        let root = match self.enter(handle) {
            Ok(root) => root,
            Err(e) => {
                return Err(e);
            },
        };
        proof {
            lemma_enter_then_leave(old(self)@, handle as int);
            lemma_root_alive(old(self)@, handle as int);
            lemma_root_alive(self@, handle as int);
        }
        let ghost entered = self@;
        let ghost before = old(self)@.record_at(root);
        let done = match root {
            Target::Shared(r) => match &mut self.shared[r].record {
                Some(record) => match check_part(record, part) {
                    Ok(_) => invoke(record, part, method, args),
                    Err(e) => Err(e),
                },
                None => Err(BridgeError::Expired),
            },
            Target::Scoped(s) => match &mut self.scopes[s].record {
                Some(record) => match check_part(record, part) {
                    Ok(_) => invoke(record, part, method, args),
                    Err(e) => Err(e),
                },
                None => Err(BridgeError::Expired),
            },
            Target::Child { .. } => Err(BridgeError::StaleHandle),
        };
        proof {
            let after = if part_error(before, part) is None {
                invoked(before, part, method, args_view(args@))
            } else {
                before
            };
            match root {
                Target::Shared(r) => {
                    assert(self@.shared =~= entered.with_record(root, after).shared);
                },
                Target::Scoped(s) => {
                    assert(self@.scopes =~= entered.with_record(root, after).scopes);
                },
                Target::Child { .. } => {},
            }
            lemma_with_record_wf(entered, root, after);
        }
        self.leave(root);
        proof {
            let target = old(self)@.after_call(handle as int, name@, args_view(args@));
            assert(self@.shared =~= target.shared);
            assert(self@.scopes =~= target.scopes);
        }
        done
    }

    /// Ends the scope for which a record was lent and gives the record back
    /// to the host. From then on every access through a handle that borrows
    /// from the scope, directly or through its parents, fails with
    /// `Expired`. Returns `None`, and changes nothing, where the handle does
    /// not borrow from a scope directly or the scope has ended before.
    pub fn end_scope(&mut self, handle: usize) -> (out: Option<Record>)
        requires
            old(self).wf(),
        ensures
            final(self).wf(),
            record_view(out) == old(self)@.end_scope_result(handle as int),
            out matches Some(r) ==> r.wf(),
            final(self)@ == old(self)@.scope_ended(handle as int),
    {
        if handle >= self.handles.len() {
            return None;
        }
        match self.handles[handle].target {
            Target::Scoped(s) => {
                proof {
                    assert(old(self)@.handle_ok(handle as int, None));
                    assert(old(self)@.scope_ok(s as int, None));
                    lemma_scope_ended_wf(old(self)@, handle as int);
                }
                let out = self.scopes[s].record.take();
                assert(self@.scopes =~= old(self)@.scope_ended(handle as int).scopes);
                out
            },
            _ => None,
        }
    }

    /// Takes a stake for the host in the shared cell at the root of a live
    /// handle, so that the record outlives the handles of the script, and
    /// returns the index of the cell. Returns `None`, and changes nothing,
    /// where the handle is stale, its root is a scope, or the count of
    /// owners is at its limit.
    pub fn host_retain(&mut self, handle: usize) -> (out: Option<usize>)
        requires
            old(self).wf(),
        ensures
            final(self).wf(),
            out == old(self)@.retain_result(handle as int),
            final(self)@ == old(self)@.retained(handle as int),
    {
        if handle >= self.handles.len() || !self.handles[handle].live {
            return None;
        }
        proof {
            lemma_host_stake_wf(old(self)@, handle as int, 0);
            lemma_root_alive(old(self)@, handle as int);
        }
        match self.resolve(handle) {
            Target::Shared(r) => {
                assert(old(self)@.shared_ok(r as int, None));
                if self.shared[r].strong == usize::MAX {
                    return None;
                }
                self.shared[r].strong = self.shared[r].strong + 1;
                self.shared[r].host = self.shared[r].host + 1;
                assert(self@.shared =~= old(self)@.retained(handle as int).shared);
                Some(r)
            },
            _ => None,
        }
    }

    /// Gives one stake of the host in a shared cell back. The record is
    /// dropped with the last owner. Returns whether the host held a stake;
    /// where it held none, nothing changes.
    pub fn host_release(&mut self, root: usize) -> (out: bool)
        requires
            old(self).wf(),
        ensures
            final(self).wf(),
            out == old(self)@.host_owns(root as int),
            final(self)@ == old(self)@.host_released(root as int),
    {
        if root >= self.shared.len() {
            return false;
        }
        proof {
            assert(old(self)@.shared_ok(root as int, None));
            lemma_host_stake_wf(old(self)@, 0, root as int);
        }
        if self.shared[root].host == 0 {
            return false;
        }
        self.shared[root].host = self.shared[root].host - 1;
        self.shared[root].strong = self.shared[root].strong - 1;
        if self.shared[root].strong == 0 {
            self.shared[root].record = None;
        }
        assert(self@.shared =~= old(self)@.host_released(root as int).shared);
        true
    }

    /// Moves the lock of a shared cell that still has its record from one
    /// state to another.
    fn move_lock(&mut self, root: usize, from: LockState, to: LockState) -> (out: bool)
        requires
            old(self).wf(),
            to matches LockState::Held(n) ==> n >= 1,
        ensures
            final(self).wf(),
            out == old(self)@.lock_is(root as int, from),
            final(self)@ == old(self)@.lock_moved(root as int, from, to),
    {
        if root >= self.shared.len() {
            return false;
        }
        proof {
            lemma_with_lock_wf(old(self)@, root as int, to);
        }
        if self.shared[root].record.is_none() || self.shared[root].lock != from {
            return false;
        }
        self.shared[root].lock = to;
        assert(self@.shared =~= old(self)@.lock_moved(root as int, from, to).shared);
        true
    }

    /// A host thread takes the free lock of a shared cell. While it holds
    /// the lock, every access of the script to the cell fails with `Busy`.
    /// Returns whether the lock was free; where it was not, or the cell has
    /// no record any more, nothing changes.
    pub fn host_lock(&mut self, root: usize) -> (out: bool)
        requires
            old(self).wf(),
        ensures
            final(self).wf(),
            out == old(self)@.lock_is(root as int, LockState::Free),
            final(self)@ == old(self)@.lock_moved(
                root as int,
                LockState::Free,
                LockState::HostHeld,
            ),
    {
        self.move_lock(root, LockState::Free, LockState::HostHeld)
    }

    /// The host thread that holds the lock of a shared cell frees it.
    /// Returns whether the host held the lock; where it did not, nothing
    /// changes.
    pub fn host_unlock(&mut self, root: usize) -> (out: bool)
        requires
            old(self).wf(),
        ensures
            final(self).wf(),
            out == old(self)@.lock_is(root as int, LockState::HostHeld),
            final(self)@ == old(self)@.lock_moved(
                root as int,
                LockState::HostHeld,
                LockState::Free,
            ),
    {
        self.move_lock(root, LockState::HostHeld, LockState::Free)
    }

    /// The host thread that holds the lock of a shared cell fails without
    /// freeing it. From then on every access of the script to the cell
    /// fails with `LockFailed`. Returns whether the host held the lock;
    /// where it did not, nothing changes.
    pub fn host_poison(&mut self, root: usize) -> (out: bool)
        requires
            old(self).wf(),
        ensures
            final(self).wf(),
            out == old(self)@.lock_is(root as int, LockState::HostHeld),
            final(self)@ == old(self)@.lock_moved(
                root as int,
                LockState::HostHeld,
                LockState::Poisoned,
            ),
    {
        self.move_lock(root, LockState::HostHeld, LockState::Poisoned)
    }

    /// The host thread that holds the lock of a shared cell puts another
    /// record into it and gets the former one. Where the host does not hold
    /// the lock, nothing changes and the new record comes back as the error.
    pub fn host_replace(&mut self, root: usize, record: Record) -> (out: Result<Record, Record>)
        requires
            old(self).wf(),
            record.wf(),
        ensures
            final(self).wf(),
            out is Ok == old(self)@.lock_is(root as int, LockState::HostHeld),
            out matches Ok(former) ==> former.wf() && Some(former@)
                == old(self)@.shared[root as int].record,
            out matches Err(given) ==> given@ == record@,
            final(self)@ == old(self)@.host_replaced(root as int, record@),
    {
        if root >= self.shared.len() {
            return Err(record);
        }
        proof {
            assert(old(self)@.shared_ok(root as int, None));
        }
        if self.shared[root].lock != LockState::HostHeld {
            return Err(record);
        }
        match self.shared[root].record.take() {
            Some(former) => {
                proof {
                    lemma_with_record_wf(old(self)@, Target::Shared(root), record@);
                }
                self.shared[root].record = Some(record);
                assert(self@.shared =~= old(self)@.host_replaced(root as int, record@).shared);
                Ok(former)
            },
            None => {
                assert(self@.shared =~= old(self)@.shared);
                Err(record)
            },
        }
    }

    /// A copy of the record of a shared cell, for the host thread that
    /// holds its lock; `None` where the host does not hold the lock.
    pub fn host_snapshot(&self, root: usize) -> (out: Option<Record>)
        requires
            self.wf(),
        ensures
            out is Some == self@.lock_is(root as int, LockState::HostHeld),
            out matches Some(r) ==> r.wf() && Some(r@) == self@.shared[root as int].record,
    {
        if root >= self.shared.len() {
            return None;
        }
        proof {
            assert(self@.shared_ok(root as int, None));
        }
        if self.shared[root].lock != LockState::HostHeld {
            return None;
        }
        match &self.shared[root].record {
            Some(r) => Some(r.duplicate()),
            None => None,
        }
    }

    /// The names of the properties that a type exposes, in the order of its
    /// table; none where the type has no table.
    pub fn field_names(&self, type_tag: TypeTag) -> (out: Vec<String>)
        ensures
            texts(out@) == self@.registry.field_names(type_tag),
    {
        match self.table(type_tag) {
            Some(t) => t.field_names(),
            None => {
                let out: Vec<String> = Vec::new();
                assert(texts(out@) =~= Seq::empty());
                out
            },
        }
    }

    /// The names of the methods that a type exposes, in the order of its
    /// table; none where the type has no table.
    pub fn method_names(&self, type_tag: TypeTag) -> (out: Vec<String>)
        ensures
            texts(out@) == self@.registry.method_names(type_tag),
    {
        match self.table(type_tag) {
            Some(t) => t.method_names(),
            None => {
                let out: Vec<String> = Vec::new();
                assert(texts(out@) =~= Seq::empty());
                out
            },
        }
    }

    /// Whether a type has a property of that name that can be written.
    pub fn is_writable(&self, type_tag: TypeTag, name: &str) -> (out: bool)
        requires
            self.wf(),
        ensures
            out == self@.registry.setter(type_tag, name@).is_some(),
    {
        match self.table(type_tag) {
            Some(t) => match t.field(name) {
                Some((_, Some(_))) => true,
                _ => false,
            },
            None => false,
        }
    }

    /// What the reserved index and length slots of a type read, where the
    /// type has them.
    pub fn buffer(&self, type_tag: TypeTag) -> (out: Option<Buffer>)
        ensures
            out == self@.registry.buffer(type_tag),
    {
        match self.table(type_tag) {
            Some(t) => t.buffer(),
            None => None,
        }
    }

    /// The number of handles that the table can hold.
    pub fn limit(&self) -> (out: usize)
        ensures
            out == self@.limit,
    {
        self.limit
    }

    /// The number of handles ever made, finalized ones included.
    pub fn handle_count(&self) -> (out: usize)
        ensures
            out == self@.handles.len(),
    {
        self.handles.len()
    }

    /// The cell of a handle, or `None` where the index names no handle.
    pub fn handle(&self, handle: usize) -> (out: Option<HandleCell>)
        ensures
            out == if handle < self@.handles.len() {
                Some(self@.handles[handle as int])
            } else {
                None
            },
    {
        if handle < self.handles.len() {
            Some(self.handles[handle])
        } else {
            None
        }
    }

    /// Whether the index names a handle whose wrapper has not been finalized.
    pub fn is_live(&self, handle: usize) -> (out: bool)
        ensures
            out == self@.is_live(handle as int),
    {
        handle < self.handles.len() && self.handles[handle].live
    }

    /// The number of owners of a shared cell, or `None` where the index
    /// names no shared cell.
    pub fn owners(&self, root: usize) -> (out: Option<usize>)
        ensures
            out == if root < self@.shared.len() {
                Some(self@.shared[root as int].strong)
            } else {
                None
            },
    {
        if root < self.shared.len() {
            Some(self.shared[root].strong)
        } else {
            None
        }
    }

    /// The number of handles that still borrow from the scope of a handle,
    /// or `None` where the handle borrows from no scope directly.
    pub fn borrowers(&self, handle: usize) -> (out: Option<usize>)
        requires
            self.wf(),
        ensures
            out == match self@.scope_of(handle as int) {
                Some(s) => Some(self@.scopes[s as int].borrows),
                None => None,
            },
    {
        if handle >= self.handles.len() {
            return None;
        }
        match self.handles[handle].target {
            Target::Scoped(s) => {
                proof {
                    assert(self@.handle_ok(handle as int, None));
                }
                assert(self@.scopes[s as int] == self.scopes[s as int]@);
                Some(self.scopes[s].borrows)
            },
            _ => None,
        }
    }

    /// The state of the lock of a shared cell, or `None` where the index
    /// names no shared cell.
    pub fn lock_state(&self, root: usize) -> (out: Option<LockState>)
        ensures
            out == if root < self@.shared.len() {
                Some(self@.shared[root as int].lock)
            } else {
                None
            },
    {
        if root < self.shared.len() {
            Some(self.shared[root].lock)
        } else {
            None
        }
    }

    /// The cell at the root of the chain of parents of a handle that still
    /// holds its stake, or `None` where the index names no such handle.
    pub fn root(&self, handle: usize) -> (out: Option<Target>)
        requires
            self.wf(),
        ensures
            out == if handle < self@.handles.len() && self@.handles[handle as int].holds_stake() {
                Some(self@.root_of(handle as int))
            } else {
                None
            },
    {
        if handle < self.handles.len() && self.handles[handle].has_stake() {
            Some(self.resolve(handle))
        } else {
            None
        }
    }

    /// A bridge with the ready-made tables of all four types registered.
    pub fn standard() -> (out: Bridge)
        ensures
            out.wf(),
            out@ == (BridgeView {
                registry: RegistryView {
                    record: Some(record_table_view()),
                    info: Some(info_table_view()),
                    genotypes: Some(buffer_table_view(Buffer::Samples)),
                    sample: Some(buffer_table_view(Buffer::Alleles)),
                },
                ..BridgeView::empty(usize::MAX)
            }),
    {
        let mut out = Bridge::new();
        out.register_type(TypeTag::Record, record_table());
        out.register_type(TypeTag::Info, info_table());
        out.register_type(TypeTag::Genotypes, buffer_table(Buffer::Samples));
        out.register_type(TypeTag::Sample, buffer_table(Buffer::Alleles));
        out
    }

    /// The number of handles whose wrapper has not been finalized: the
    /// measure of what the bridge keeps alive for the script, for the
    /// runtime's collector to weigh.
    pub fn live_handles(&self) -> (out: usize)
        ensures
            out == live_count(self@.handles),
    {
        let mut out: usize = 0;
        let mut i: usize = 0;
        while i < self.handles.len()
            invariant
                i <= self.handles.len(),
                out == live_count(self.handles@.take(i as int)),
                out <= i,
            decreases self.handles.len() - i,
        {
            assert(self.handles@.take(i + 1).drop_last() =~= self.handles@.take(i as int));
            if self.handles[i].live {
                out = out + 1;
            }
            i += 1;
        }
        assert(self.handles@.take(self.handles.len() as int) =~= self.handles@);
        out
    }

    /// Disposes of the bridge at teardown. A bridge is disposed of only
    /// after the wrapper of every handle has been finalized: while a wrapper
    /// is left, the bridge comes back unchanged.
    pub fn dispose(self) -> (out: Option<Bridge>)
        ensures
            out.is_none() == (live_count(self@.handles) == 0),
            out matches Some(b) ==> b == self,
    {
        if self.live_handles() == 0 {
            None
        } else {
            Some(self)
        }
    }
}

} // verus!
