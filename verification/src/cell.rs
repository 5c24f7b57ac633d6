//! The cells of the handle table and the stakes that keep them alive.
//!
//! A handle holds one stake on what it refers to: a shared cell, a scope, or
//! its parent handle. It holds that stake for as long as its wrapper is
//! reachable from the script or a child handle refers to it.

use vstd::prelude::*;
use crate::descriptor::TypeTag;

verus! {

/// How a handle owns what it refers to.
#[derive(Clone, Copy, PartialEq, Eq, Structural, Debug)]
pub enum OwnershipMode {
    /// The record lives in a shared, locked cell until its last owner is gone.
    OwnedShared,
    /// The record is lent for the duration of one scope.
    BorrowedScoped,
    /// The handle views a part of its parent handle's object.
    ChildReference,
}

/// Which part of its parent a child handle views.
#[derive(Clone, Copy, PartialEq, Eq, Structural, Debug)]
pub enum Projection {
    /// The info mapping of a record.
    Info,
    /// The genotype matrix of a record.
    Genotypes,
    /// The row of the sample with this 0-based index.
    Sample(usize),
}

/// What a handle refers to.
#[derive(Clone, Copy, PartialEq, Eq, Structural, Debug)]
pub enum Target {
    /// The shared cell with this index.
    Shared(usize),
    /// The scope with this index.
    Scoped(usize),
    /// A part of the object of the handle with index `parent`.
    Child { parent: usize, projection: Projection },
}

/// Something a stake can be held on.
#[derive(Clone, Copy, PartialEq, Eq, Structural, Debug)]
pub enum Owner {
    Shared(usize),
    Scoped(usize),
    Handle(usize),
}

/// The state of the lock of a shared cell.
#[derive(Clone, Copy, PartialEq, Eq, Structural, Debug)]
pub enum LockState {
    /// Nobody holds the lock.
    Free,
    /// The bridge holds the lock, acquired this many times by nested calls.
    Held(usize),
    /// A host thread holds the lock.
    HostHeld,
    /// A host thread failed while it held the lock.
    Poisoned,
}

/// One cell of the handle table.
#[derive(Clone, Copy, PartialEq, Eq, Structural, Debug)]
pub struct HandleCell {
    /// What the handle refers to.
    pub target: Target,
    /// Whether the wrapper is still reachable from the script: set at
    /// creation, cleared once by finalization.
    pub live: bool,
    /// The number of stakes that child handles hold on this handle.
    pub children: usize,
}

impl Target {
    /// What a handle with this target holds its stake on.
    pub open spec fn owner(self) -> Owner {
        match self {
            Target::Shared(r) => Owner::Shared(r),
            Target::Scoped(s) => Owner::Scoped(s),
            Target::Child { parent, projection } => Owner::Handle(parent),
        }
    }

    /// The ownership mode of a handle with this target.
    pub open spec fn mode(self) -> OwnershipMode {
        match self {
            Target::Shared(_) => OwnershipMode::OwnedShared,
            Target::Scoped(_) => OwnershipMode::BorrowedScoped,
            Target::Child { .. } => OwnershipMode::ChildReference,
        }
    }

    /// The part of the record that a handle with this target stands for;
    /// none where it stands for the whole record.
    pub open spec fn part(self) -> Option<Projection> {
        match self {
            Target::Child { parent, projection } => Some(projection),
            _ => None,
        }
    }

    /// The type of the object that a handle with this target stands for.
    pub open spec fn tag(self) -> TypeTag {
        match self {
            Target::Shared(_) => TypeTag::Record,
            Target::Scoped(_) => TypeTag::Record,
            Target::Child { parent, projection } => projection.tag(),
        }
    }
}

impl Projection {
    /// The type of the part that the projection selects.
    pub open spec fn tag(self) -> TypeTag {
        match self {
            Projection::Info => TypeTag::Info,
            Projection::Genotypes => TypeTag::Genotypes,
            Projection::Sample(_) => TypeTag::Sample,
        }
    }

    /// The type of the object that the projection selects a part of.
    pub open spec fn parent_tag(self) -> TypeTag {
        match self {
            Projection::Info => TypeTag::Record,
            Projection::Genotypes => TypeTag::Record,
            Projection::Sample(_) => TypeTag::Genotypes,
        }
    }

    /// The type of the part that the projection selects.
    pub fn type_tag(&self) -> (out: TypeTag)
        ensures
            out == self.tag(),
    {
        match self {
            Projection::Info => TypeTag::Info,
            Projection::Genotypes => TypeTag::Genotypes,
            Projection::Sample(_) => TypeTag::Sample,
        }
    }
}

impl HandleCell {
    /// Whether the handle still holds its stake: its wrapper is reachable or
    /// a child refers to it.
    pub open spec fn holds_stake(self) -> bool {
        self.live || self.children > 0
    }

    /// Whether the handle holds a stake on `owner`.
    pub open spec fn stakes(self, owner: Owner) -> bool {
        self.holds_stake() && self.target.owner() == owner
    }

    /// Whether the handle still holds its stake.
    pub fn has_stake(&self) -> (out: bool)
        ensures
            out == self.holds_stake(),
    {
        self.live || self.children > 0
    }

    /// The ownership mode of the handle.
    pub fn mode(&self) -> (out: OwnershipMode)
        ensures
            out == self.target.mode(),
    {
        match self.target {
            Target::Shared(_) => OwnershipMode::OwnedShared,
            Target::Scoped(_) => OwnershipMode::BorrowedScoped,
            Target::Child { .. } => OwnershipMode::ChildReference,
        }
    }

    /// The part of the record that the handle stands for.
    pub fn part(&self) -> (out: Option<Projection>)
        ensures
            out == self.target.part(),
    {
        match self.target {
            Target::Child { parent, projection } => Some(projection),
            _ => None,
        }
    }

    /// The type of the object that the handle stands for.
    pub fn type_tag(&self) -> (out: TypeTag)
        ensures
            out == self.target.tag(),
    {
        match self.target {
            Target::Shared(_) => TypeTag::Record,
            Target::Scoped(_) => TypeTag::Record,
            Target::Child { parent, projection } => projection.type_tag(),
        }
    }
}

/// The number of handles that hold a stake on `owner`.
pub open spec fn stakes_on(handles: Seq<HandleCell>, owner: Owner) -> nat
    decreases handles.len(),
{
    if handles.len() == 0 {
        0
    } else {
        stakes_on(handles.drop_last(), owner) + if handles.last().stakes(owner) {
            1nat
        } else {
            0nat
        }
    }
}

/// One for a handle that holds a stake on `owner`, else zero.
pub open spec fn stake_of(cell: HandleCell, owner: Owner) -> nat {
    if cell.stakes(owner) {
        1
    } else {
        0
    }
}

/// A new handle adds its own stake and no other.
pub proof fn lemma_stakes_push(handles: Seq<HandleCell>, cell: HandleCell, owner: Owner)
    ensures
        stakes_on(handles.push(cell), owner) == stakes_on(handles, owner) + stake_of(cell, owner),
{
    assert(handles.push(cell).drop_last() =~= handles);
}

/// Replacing one cell exchanges its stake for that of the new cell.
pub proof fn lemma_stakes_update(
    handles: Seq<HandleCell>,
    at: int,
    cell: HandleCell,
    owner: Owner,
)
    requires
        0 <= at < handles.len(),
    ensures
        stakes_on(handles.update(at, cell), owner) + stake_of(handles[at], owner) == stakes_on(
            handles,
            owner,
        ) + stake_of(cell, owner),
    decreases handles.len(),
{
    let after = handles.update(at, cell);
    if at == handles.len() - 1 {
        assert(after.drop_last() =~= handles.drop_last());
    } else {
        assert(after.drop_last() =~= handles.drop_last().update(at, cell));
        lemma_stakes_update(handles.drop_last(), at, cell, owner);
    }
}

/// There are no more stakes than handles.
pub proof fn lemma_stakes_bound(handles: Seq<HandleCell>, owner: Owner)
    ensures
        stakes_on(handles, owner) <= handles.len(),
    decreases handles.len(),
{
    if handles.len() > 0 {
        lemma_stakes_bound(handles.drop_last(), owner);
    }
}

/// A handle that holds a stake is counted.
pub proof fn lemma_stakes_member(handles: Seq<HandleCell>, at: int, owner: Owner)
    requires
        0 <= at < handles.len(),
        handles[at].stakes(owner),
    ensures
        stakes_on(handles, owner) >= 1,
    decreases handles.len(),
{
    if at < handles.len() - 1 {
        lemma_stakes_member(handles.drop_last(), at, owner);
    }
}

/// Where no handle holds a stake, the count is zero, and the other way round.
pub proof fn lemma_stakes_none(handles: Seq<HandleCell>, owner: Owner)
    ensures
        (stakes_on(handles, owner) == 0) <==> (forall|i: int|
            0 <= i < handles.len() ==> !(#[trigger] handles[i]).stakes(owner)),
    decreases handles.len(),
{
    if handles.len() > 0 {
        lemma_stakes_none(handles.drop_last(), owner);
        if stakes_on(handles, owner) == 0 {
            assert forall|i: int| 0 <= i < handles.len() implies !(#[trigger] handles[i]).stakes(
                owner,
            ) by {
                if i < handles.len() - 1 {
                    assert(handles.drop_last()[i] == handles[i]);
                }
            }
        } else {
            if forall|i: int| 0 <= i < handles.len() ==> !(#[trigger] handles[i]).stakes(owner) {
                assert forall|i: int| 0 <= i < handles.drop_last().len() implies !(
                #[trigger] handles.drop_last()[i]).stakes(owner) by {
                    assert(handles.drop_last()[i] == handles[i]);
                }
                assert(!handles[handles.len() - 1].stakes(owner));
            }
        }
    }
}

} // verus!
