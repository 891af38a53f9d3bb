//! Model of the state a cleanup run acts on.
//!
//! One cleanup run owns a causally-consistent session against the document
//! store and also touches the access-control store and the user cache's role
//! index.  This module models that state as plain data: one vector per
//! collection of the document store, plus the role sets.  Side effects that
//! leave the process (cache reload triggers, deletion events) are collected
//! in a [`RunEffects`] value for the caller to perform.

use vstd::prelude::*;

verus! {

use crate::access::AccessRole;
use crate::ids::{EntityId, MemberId, ObjectId, OrganizationUnitId, CustomerResourceId,
    OrganizationResourceId};
use crate::owner::{Owner, owner_entity};
use crate::seqs::mapped;

/// A document of an ancestor-tagged collection.  A node's own identifier
/// travels in the `id` field of the loose identifier and its ancestors in
/// the ancestor fields, so an ancestor-field sweep matches a node's
/// dependents but never the node's own row.
#[derive(Clone, Copy, Debug, PartialEq, Eq, Structural)]
pub struct Doc {
    pub id: EntityId,
}

/// A document of the users collection, anchored by its owner reference.
#[derive(Clone, Copy, Debug, PartialEq, Eq, Structural)]
pub struct UserDoc {
    pub owner: Owner,
}

/// A document of the organization-units collection, with its membership set.
#[derive(Clone, Debug, PartialEq, Eq)]
pub struct OrganizationUnitDoc {
    pub id: EntityId,
    pub members: Vec<MemberId>,
}

#[verifier::ext_equal]
pub struct OrganizationUnitDocView {
    pub id: EntityId,
    pub members: Seq<MemberId>,
}

impl View for OrganizationUnitDoc {
    type V = OrganizationUnitDocView;

    open spec fn view(&self) -> OrganizationUnitDocView {
        OrganizationUnitDocView { id: self.id, members: self.members@ }
    }
}

/// A collection outside the five the engine knows by name.
#[derive(Clone, Debug, PartialEq, Eq)]
pub struct ExtraCollection {
    pub name: String,
    pub docs: Vec<Doc>,
}

#[verifier::ext_equal]
pub struct ExtraCollectionView {
    pub name: Seq<char>,
    pub docs: Seq<Doc>,
}

impl View for ExtraCollection {
    type V = ExtraCollectionView;

    open spec fn view(&self) -> ExtraCollectionView {
        ExtraCollectionView { name: self.name@, docs: self.docs@ }
    }
}

/// Everything one session of the document store sees.
#[derive(Debug, PartialEq, Eq)]
pub struct Store {
    pub customers: Vec<Doc>,
    pub organizations: Vec<Doc>,
    pub institutions: Vec<Doc>,
    pub organization_units: Vec<OrganizationUnitDoc>,
    pub users: Vec<UserDoc>,
    pub extras: Vec<ExtraCollection>,
}

#[verifier::ext_equal]
pub struct StoreView {
    pub customers: Seq<Doc>,
    pub organizations: Seq<Doc>,
    pub institutions: Seq<Doc>,
    pub organization_units: Seq<OrganizationUnitDocView>,
    pub users: Seq<UserDoc>,
    pub extras: Seq<ExtraCollectionView>,
}

/// Element-wise view of a unit-document vector.
pub open spec fn units_view(units: Seq<OrganizationUnitDoc>) -> Seq<OrganizationUnitDocView> {
    mapped(units, |u: OrganizationUnitDoc| u@)
}

/// Element-wise view of an extra-collection vector.
pub open spec fn extras_view(extras: Seq<ExtraCollection>) -> Seq<ExtraCollectionView> {
    mapped(extras, |c: ExtraCollection| c@)
}

impl View for Store {
    type V = StoreView;

    open spec fn view(&self) -> StoreView {
        StoreView {
            customers: self.customers@,
            organizations: self.organizations@,
            institutions: self.institutions@,
            organization_units: units_view(self.organization_units@),
            users: self.users@,
            extras: extras_view(self.extras@),
        }
    }
}

/// The state a cleanup run reads and rewrites: the document store, the
/// access-control store's role set, and the user cache's role index.
#[derive(Debug, PartialEq, Eq)]
pub struct CleanupState {
    pub store: Store,
    pub roles: Vec<AccessRole>,
    pub cached_roles: Vec<AccessRole>,
}

#[verifier::ext_equal]
pub struct CleanupStateView {
    pub store: StoreView,
    pub roles: Seq<AccessRole>,
    pub cached_roles: Seq<AccessRole>,
}

impl View for CleanupState {
    type V = CleanupStateView;

    open spec fn view(&self) -> CleanupStateView {
        CleanupStateView {
            store: self.store@,
            roles: self.roles@,
            cached_roles: self.cached_roles@,
        }
    }
}

/// Namespace of a deletion event.
#[derive(Clone, Copy, Debug, PartialEq, Eq, Structural)]
pub enum EventNs {
    Customer,
    Organization,
    Institution,
    OrganizationUnit,
    User,
}

/// Which collection of the document store an event speaks of.
#[derive(Clone, Copy, Debug, PartialEq, Eq, Structural)]
pub enum CollectionKind {
    Customers,
    Organizations,
    Institutions,
    OrganizationUnits,
    Users,
}

/// Collection name on the wire.
pub open spec fn collection_name(k: CollectionKind) -> Seq<char> {
    match k {
        CollectionKind::Customers => "customers"@,
        CollectionKind::Organizations => "organizations"@,
        CollectionKind::Institutions => "institutions"@,
        CollectionKind::OrganizationUnits => "organization_units"@,
        CollectionKind::Users => "users"@,
    }
}

impl CollectionKind {
    pub fn name(&self) -> (r: &'static str)
        ensures
            r@ == collection_name(*self),
    {
        proof {
            reveal_strlit("customers");
            reveal_strlit("organizations");
            reveal_strlit("institutions");
            reveal_strlit("organization_units");
            reveal_strlit("users");
        }
        match self {
            CollectionKind::Customers => "customers",
            CollectionKind::Organizations => "organizations",
            CollectionKind::Institutions => "institutions",
            CollectionKind::OrganizationUnits => "organization_units",
            CollectionKind::Users => "users",
        }
    }
}

/// One deletion event for downstream subscribers, published at least once.
#[derive(Clone, Debug, PartialEq, Eq)]
pub struct DeleteEvent {
    pub ns: EventNs,
    pub collection: CollectionKind,
    pub ids: Vec<EntityId>,
}

#[verifier::ext_equal]
pub struct DeleteEventView {
    pub ns: EventNs,
    pub collection: CollectionKind,
    pub ids: Seq<EntityId>,
}

impl View for DeleteEvent {
    type V = DeleteEventView;

    open spec fn view(&self) -> DeleteEventView {
        DeleteEventView { ns: self.ns, collection: self.collection, ids: self.ids@ }
    }
}

/// Element-wise view of an event vector.
pub open spec fn events_view(evs: Seq<DeleteEvent>) -> Seq<DeleteEventView> {
    mapped(evs, |e: DeleteEvent| e@)
}

/// The outward side effects of one run: how often each read cache was asked
/// to reload, and which deletion events to publish.
#[derive(Debug, PartialEq, Eq)]
pub struct RunEffects {
    pub user_cache_reloads: u64,
    pub customer_cache_reloads: u64,
    pub events: Vec<DeleteEvent>,
}

/// An optional ancestor field falls in a deleted-id set only when present.
pub open spec fn id_in(ids: Seq<ObjectId>, x: Option<ObjectId>) -> bool {
    match x {
        Some(v) => ids.contains(v),
        None => false,
    }
}

/// Ancestor-containment match for a customer deletion.
pub open spec fn cust_hit(e: EntityId, cids: Seq<ObjectId>) -> bool {
    id_in(cids, e.cid)
}

/// Ancestor-containment match for an organization deletion.
pub open spec fn org_hit(e: EntityId, cids: Seq<ObjectId>, oids: Seq<ObjectId>) -> bool {
    id_in(cids, e.cid) && id_in(oids, e.oid)
}

/// Ancestor-containment match for an institution deletion.
pub open spec fn inst_hit(
    e: EntityId,
    cids: Seq<ObjectId>,
    oids: Seq<ObjectId>,
    iids: Seq<ObjectId>,
) -> bool {
    id_in(cids, e.cid) && id_in(oids, e.oid) && id_in(iids, e.iid)
}

/// The role of the organization unit a document's identifier names.
pub open spec fn unit_role_of(e: EntityId) -> Option<AccessRole> {
    match (e.cid, e.oid, e.id) {
        (Some(cid), Some(oid), Some(id)) => Some(
            AccessRole::OrganizationUnit(
                OrganizationUnitId::Organization(OrganizationResourceId { cid, oid, id }),
            ),
        ),
        (Some(cid), None, Some(id)) => Some(
            AccessRole::OrganizationUnit(
                OrganizationUnitId::Customer(CustomerResourceId { cid, id }),
            ),
        ),
        _ => None,
    }
}

/// The role of the organization a document's identifier names.
pub open spec fn org_role_of(e: EntityId) -> Option<AccessRole> {
    match (e.cid, e.id) {
        (Some(cid), Some(id)) => Some(
            AccessRole::Organization(CustomerResourceId { cid, id }),
        ),
        _ => None,
    }
}

/// The role of the institution a document's identifier names.
pub open spec fn inst_role_of(e: EntityId) -> Option<AccessRole> {
    match (e.cid, e.oid, e.id) {
        (Some(cid), Some(oid), Some(id)) => Some(
            AccessRole::Institution(OrganizationResourceId { cid, oid, id }),
        ),
        _ => None,
    }
}

/// Whether a deleted-id set holds the given identifier.
pub fn contains_id(ids: &Vec<ObjectId>, x: ObjectId) -> (r: bool)
    ensures
        r == ids@.contains(x),
{
    let mut i: usize = 0;
    while i < ids.len()
        invariant
            i <= ids@.len(),
            forall|j: int| 0 <= j < i ==> ids@[j] != x,
        decreases ids@.len() - i,
    {
        if ids[i] == x {
            return true;
        }
        i = i + 1;
    }
    false
}

/// Whether an optional ancestor field falls in a deleted-id set.
pub fn opt_id_in(ids: &Vec<ObjectId>, x: &Option<ObjectId>) -> (r: bool)
    ensures
        r == id_in(ids@, *x),
{
    match x {
        Some(v) => contains_id(ids, *v),
        None => false,
    }
}

/// Whether a role set holds the given role.
pub fn contains_role(roles: &Vec<AccessRole>, x: &AccessRole) -> (r: bool)
    ensures
        r == roles@.contains(*x),
{
    let mut i: usize = 0;
    while i < roles.len()
        invariant
            i <= roles@.len(),
            forall|j: int| 0 <= j < i ==> roles@[j] != *x,
        decreases roles@.len() - i,
    {
        if roles[i] == *x {
            return true;
        }
        i = i + 1;
    }
    false
}

/// The owner's loose identifier of a user document.
pub open spec fn user_entity(u: UserDoc) -> EntityId {
    owner_entity(u.owner)
}

} // verus!
