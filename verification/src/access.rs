//! Access-control roles derived from hierarchy identities.
//!
//! Every node of the tenant tree owns one access-control entry in the role
//! store, named by its level and its identifier chain.  The name is stable
//! and re-derivable from the identity alone, so revocation after a deletion
//! needs no lookup: the cleanup engine recomputes the names.

use vstd::prelude::*;

verus! {

use crate::ids::{CustomerId, CustomerResourceId, OrganizationResourceId, OrganizationUnitId};

/// The hierarchy level an access-control entry is scoped to.
#[derive(Clone, Copy, Debug, PartialEq, Eq, Structural)]
pub enum AccessLevel {
    Customer,
    Organization,
    Institution,
    OrganizationUnit,
}

/// One access-control entry: a level together with the identity chain of the
/// node it grants access to.
#[derive(Clone, Copy, Debug, PartialEq, Eq, Structural)]
pub enum AccessRole {
    Customer(CustomerId),
    Organization(CustomerResourceId),
    Institution(OrganizationResourceId),
    OrganizationUnit(OrganizationUnitId),
}

/// Wire name of a level.
pub open spec fn level_str(l: AccessLevel) -> Seq<char> {
    match l {
        AccessLevel::Customer => "customer"@,
        AccessLevel::Organization => "organization"@,
        AccessLevel::Institution => "institution"@,
        AccessLevel::OrganizationUnit => "organization_unit"@,
    }
}

/// The level a role is scoped to.
pub open spec fn role_level(r: AccessRole) -> AccessLevel {
    match r {
        AccessRole::Customer(_) => AccessLevel::Customer,
        AccessRole::Organization(_) => AccessLevel::Organization,
        AccessRole::Institution(_) => AccessLevel::Institution,
        AccessRole::OrganizationUnit(_) => AccessLevel::OrganizationUnit,
    }
}

/// The hyphen-joined identifier chain of a role's node.
pub open spec fn role_chain(r: AccessRole) -> Seq<char> {
    match r {
        AccessRole::Customer(c) => c.id.seg(),
        AccessRole::Organization(o) => o.cid.seg() + "-"@ + o.id.seg(),
        AccessRole::Institution(i) => i.cid.seg() + "-"@ + i.oid.seg() + "-"@ + i.id.seg(),
        AccessRole::OrganizationUnit(u) => match u {
            OrganizationUnitId::Customer(c) => c.cid.seg() + "-"@ + c.id.seg(),
            OrganizationUnitId::Organization(o) => o.cid.seg() + "-"@ + o.oid.seg() + "-"@
                + o.id.seg(),
        },
    }
}

/// The stable role name: `<level>:<hyphen-joined-id-chain>`.
pub open spec fn role_name(r: AccessRole) -> Seq<char> {
    level_str(role_level(r)) + ":"@ + role_chain(r)
}

impl AccessRole {
    /// Produce the stable role name this entry is stored under.
    pub fn encode(&self) -> (out: String)
        ensures
            out@ == role_name(*self),
    {
        proof {
            reveal_strlit("customer");
            reveal_strlit("organization");
            reveal_strlit("institution");
            reveal_strlit("organization_unit");
            reveal_strlit(":");
            reveal_strlit("-");
        }
        let mut out = String::new();
        match self {
            AccessRole::Customer(c) => {
                out.append("customer");
                out.append(":");
                crate::hex::append_hex24(&mut out, c.id.value);
            },
            AccessRole::Organization(o) => {
                out.append("organization");
                out.append(":");
                crate::hex::append_hex24(&mut out, o.cid.value);
                out.append("-");
                crate::hex::append_hex24(&mut out, o.id.value);
            },
            AccessRole::Institution(i) => {
                out.append("institution");
                out.append(":");
                crate::hex::append_hex24(&mut out, i.cid.value);
                out.append("-");
                crate::hex::append_hex24(&mut out, i.oid.value);
                out.append("-");
                crate::hex::append_hex24(&mut out, i.id.value);
            },
            AccessRole::OrganizationUnit(u) => {
                out.append("organization_unit");
                out.append(":");
                match u {
                    OrganizationUnitId::Customer(c) => {
                        crate::hex::append_hex24(&mut out, c.cid.value);
                        out.append("-");
                        crate::hex::append_hex24(&mut out, c.id.value);
                    },
                    OrganizationUnitId::Organization(o) => {
                        crate::hex::append_hex24(&mut out, o.cid.value);
                        out.append("-");
                        crate::hex::append_hex24(&mut out, o.oid.value);
                        out.append("-");
                        crate::hex::append_hex24(&mut out, o.id.value);
                    },
                }
            },
        }
        out
    }
}

} // verus!
