//! Cleanup tasks.
//!
//! One task is enqueued per deletion request and names the hierarchy level
//! being deleted together with the strict, fully-qualified identifiers of
//! the deleted nodes.  The queue delivers a task at least once; the engine's
//! idempotence makes redelivery safe.

use vstd::prelude::*;

verus! {

use crate::ids::{Cid, StrictInstitutionIds, StrictOrganizationIds, StrictOrganizationUnitIds};

/// The deleted-customer list of a task.
pub type CustomerIds = Vec<Cid>;

/// Which level a cleanup task deletes, with the deleted nodes' strict
/// identifiers; `NoOp` marks a deliberate no-operation replay entry.
#[derive(Clone, Debug)]
pub enum CleanupTaskType {
    Customers(CustomerIds),
    Organizations(StrictOrganizationIds),
    Institutions(StrictInstitutionIds),
    OrganizationUnits(StrictOrganizationUnitIds),
    NoOp,
}

/// Wire name of a task type.
pub open spec fn task_type_name(t: CleanupTaskType) -> Seq<char> {
    match t {
        CleanupTaskType::Customers(_) => "customers"@,
        CleanupTaskType::Organizations(_) => "organizations"@,
        CleanupTaskType::Institutions(_) => "institutions"@,
        CleanupTaskType::OrganizationUnits(_) => "organization_units"@,
        CleanupTaskType::NoOp => "none"@,
    }
}

impl CleanupTaskType {
    /// The stable name a task type travels under.
    pub fn name(&self) -> (r: &'static str)
        ensures
            r@ == task_type_name(*self),
    {
        proof {
            reveal_strlit("customers");
            reveal_strlit("organizations");
            reveal_strlit("institutions");
            reveal_strlit("organization_units");
            reveal_strlit("none");
        }
        match self {
            CleanupTaskType::Customers(_) => "customers",
            CleanupTaskType::Organizations(_) => "organizations",
            CleanupTaskType::Institutions(_) => "institutions",
            CleanupTaskType::OrganizationUnits(_) => "organization_units",
            CleanupTaskType::NoOp => "none",
        }
    }
}

/// One durable work-queue entry: a unique task identifier and the deletion
/// it instructs.  Created at enqueue time, consumed by the worker,
/// acknowledged (destroyed) on successful completion.
#[derive(Clone, Debug)]
pub struct CleanupTask {
    pub id: u128,
    pub ty: CleanupTaskType,
}

impl CleanupTask {
    pub fn new(id: u128, ty: CleanupTaskType) -> (r: Self)
        ensures
            r.id == id,
            r.ty == ty,
    {
        CleanupTask { id, ty }
    }
}

/// Key prefix under which cleanup tasks travel on the work queue.
pub const PREFIX: &'static str = "cleanup_tasks";

} // verus!
