//! Owner references for dependent records.
//!
//! A dependent record (for instance a user) is anchored at one hierarchy
//! level and stores the full ancestor chain of that anchor as a loose
//! identifier.  Projection extracts an ancestor identity of a requested
//! level if and only if every field that level needs is present; it never
//! fabricates a field and never fails in any other way.

use vstd::prelude::*;

verus! {

use crate::ids::{
    CustomerId, CustomerResourceId, EntityId, InstitutionId, OrganizationId,
    OrganizationResourceId, OrganizationUnitId,
};

/// Which hierarchy level a dependent record belongs to, with the ancestor
/// chain of the anchoring node.
#[derive(Clone, Copy, Debug, PartialEq, Eq, Structural)]
pub enum Owner {
    Customer(EntityId),
    Organization(EntityId),
    Institution(EntityId),
    OrganizationUnit(EntityId),
}

/// The loose identifier carried by an owner reference, whatever its level.
pub open spec fn owner_entity(o: Owner) -> EntityId {
    match o {
        Owner::Customer(e) => e,
        Owner::Organization(e) => e,
        Owner::Institution(e) => e,
        Owner::OrganizationUnit(e) => e,
    }
}

/// The customer projection: defined for every level, present exactly when
/// the `cid` field is.
pub open spec fn customer_of(o: Owner) -> Option<CustomerId> {
    match owner_entity(o).cid {
        Some(cid) => Some(CustomerId { id: cid }),
        None => None,
    }
}

/// The organization projection: present exactly when `cid` and `oid` are.
pub open spec fn organization_of(o: Owner) -> Option<OrganizationId> {
    match (owner_entity(o).cid, owner_entity(o).oid) {
        (Some(cid), Some(oid)) => Some(CustomerResourceId { cid, id: oid }),
        _ => None,
    }
}

/// The institution projection: defined only for records anchored at an
/// Institution, present exactly when `cid`, `oid` and `iid` are.
pub open spec fn institution_of(o: Owner) -> Option<InstitutionId> {
    match o {
        Owner::Institution(e) => match (e.cid, e.oid, e.iid) {
            (Some(cid), Some(oid), Some(iid)) => Some(
                OrganizationResourceId { cid, oid, id: iid },
            ),
            _ => None,
        },
        _ => None,
    }
}

/// The organization-unit projection: defined only for records anchored at an
/// Organization Unit, whose own id travels in the `iid` field.
pub open spec fn organization_unit_of(o: Owner) -> Option<OrganizationUnitId> {
    match o {
        Owner::OrganizationUnit(e) => match (e.cid, e.oid, e.iid) {
            (Some(cid), Some(oid), Some(iid)) => Some(
                OrganizationUnitId::Organization(
                    OrganizationResourceId { cid, oid, id: iid },
                ),
            ),
            (Some(cid), None, Some(iid)) => Some(
                OrganizationUnitId::Customer(CustomerResourceId { cid, id: iid }),
            ),
            _ => None,
        },
        _ => None,
    }
}

impl Owner {
    /// The loose identifier this reference carries.
    pub fn entity_id(&self) -> (r: &EntityId)
        ensures
            *r == owner_entity(*self),
    {
        match self {
            Owner::Customer(e) => e,
            Owner::Organization(e) => e,
            Owner::Institution(e) => e,
            Owner::OrganizationUnit(e) => e,
        }
    }

    /// Project to the customer ancestor; absent fields are never invented.
    pub fn customer(&self) -> (r: Option<CustomerId>)
        ensures
            r == customer_of(*self),
    {
        match self.entity_id().cid {
            Some(cid) => Some(CustomerId { id: cid }),
            None => None,
        }
    }

    /// Project to the organization ancestor.
    pub fn organization(&self) -> (r: Option<OrganizationId>)
        ensures
            r == organization_of(*self),
    {
        let e = self.entity_id();
        match (e.cid, e.oid) {
            (Some(cid), Some(oid)) => Some(CustomerResourceId { cid, id: oid }),
            _ => None,
        }
    }

    /// Project to the institution anchor.
    pub fn institution(&self) -> (r: Option<InstitutionId>)
        ensures
            r == institution_of(*self),
    {
        match self {
            Owner::Institution(e) => match (e.cid, e.oid, e.iid) {
                (Some(cid), Some(oid), Some(iid)) => Some(
                    OrganizationResourceId { cid, oid, id: iid },
                ),
                _ => None,
            },
            _ => None,
        }
    }

    /// Project to the organization-unit anchor.
    pub fn organization_unit(&self) -> (r: Option<OrganizationUnitId>)
        ensures
            r == organization_unit_of(*self),
    {
        match self {
            Owner::OrganizationUnit(e) => match (e.cid, e.oid, e.iid) {
                (Some(cid), Some(oid), Some(iid)) => Some(
                    OrganizationUnitId::Organization(
                        OrganizationResourceId { cid, oid, id: iid },
                    ),
                ),
                (Some(cid), None, Some(iid)) => Some(
                    OrganizationUnitId::Customer(CustomerResourceId { cid, id: iid }),
                ),
                _ => None,
            },
            _ => None,
        }
    }
}

/// Projection never fabricates a field: a missing `cid` gives no customer,
/// and a fully-populated Institution anchor projects to exactly the
/// organization `(cid, oid)`.
pub proof fn lemma_projection_safety(o: Owner)
    ensures
        owner_entity(o).cid is None ==> customer_of(o) is None,
        owner_entity(o).cid is None || owner_entity(o).oid is None ==> organization_of(o)
            is None,
        forall|cid: crate::ids::ObjectId, oid: crate::ids::ObjectId|
            owner_entity(o).cid == Some(cid) && owner_entity(o).oid == Some(oid)
                ==> #[trigger] organization_of(o) == Some(CustomerResourceId { cid, id: oid }),
        customer_of(o) is Some <==> owner_entity(o).cid is Some,
{
}

} // verus!
