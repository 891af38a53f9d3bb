//! The cleanup worker: one dequeued task, one full run.
//!
//! A bounded pool of workers consumes tasks concurrently; each worker runs
//! one task to completion before pulling the next.  The queue transport,
//! the real stores and the acknowledgement live outside this crate; the
//! dispatch here decides, per task, which cascade to run and what the
//! resulting state and side effects are.

use vstd::prelude::*;

verus! {

use crate::cleanup::{CleanupTask, CleanupTaskType};
use crate::engine::{cleanup_customers, cleanup_customers_spec, cleanup_institutions,
    cleanup_institutions_spec, cleanup_organization_units, cleanup_organization_units_spec,
    cleanup_organizations, cleanup_organizations_spec, customers_events, institutions_events,
    organization_units_events, organizations_events};
use crate::store::{events_view, CleanupState, RunEffects};

/// Per-worker context: the storage handle the run goes against, tagged with
/// the deployment's related types.
pub struct CleanupWorkerCtx<Auth, Store, AccessLevel, Resource, Permission> {
    pub store: Store,
    pub _marker: core::marker::PhantomData<(Auth, AccessLevel, Resource, Permission)>,
}

impl<Auth, Store, AccessLevel, Resource, Permission> CleanupWorkerCtx<
    Auth,
    Store,
    AccessLevel,
    Resource,
    Permission,
> {
    pub fn new(store: Store) -> (r: Self)
        ensures
            r.store == store,
    {
        CleanupWorkerCtx { store, _marker: core::marker::PhantomData }
    }
}

/// The worker that consumes cleanup tasks.
pub struct CleanupWorker;

impl CleanupWorker {
    /// Run one dequeued task against the session state: dispatch on the
    /// task's level and perform that level's cascade; a `NoOp` task leaves
    /// the state untouched and asks for nothing.  The caller acknowledges
    /// the task only after the returned effects were performed.
    pub fn run(&self, state: &CleanupState, task: &CleanupTask) -> (r: (
        CleanupState,
        RunEffects,
    ))
        ensures
            match task.ty {
                CleanupTaskType::Customers(ids) => r.0@ == cleanup_customers_spec(state@, ids@)
                    && events_view(r.1.events@) == customers_events(
                    state@.store,
                    r.0@.store,
                    ids@,
                ) && r.1.user_cache_reloads == 1 && r.1.customer_cache_reloads == 1,
                CleanupTaskType::Organizations(ids) => r.0@ == cleanup_organizations_spec(
                    state@,
                    ids@,
                ) && events_view(r.1.events@) == organizations_events(
                    state@.store,
                    r.0@.store,
                    ids@,
                ) && r.1.user_cache_reloads == 1 && r.1.customer_cache_reloads == 1,
                CleanupTaskType::Institutions(ids) => r.0@ == cleanup_institutions_spec(
                    state@,
                    ids@,
                ) && events_view(r.1.events@) == institutions_events(
                    state@.store,
                    r.0@.store,
                    ids@,
                ) && r.1.user_cache_reloads == 1 && r.1.customer_cache_reloads == 1,
                CleanupTaskType::OrganizationUnits(ids) => r.0@
                    == cleanup_organization_units_spec(state@, ids@) && events_view(r.1.events@)
                    == organization_units_events(state@.store, r.0@.store, ids@)
                    && r.1.user_cache_reloads == 1 && r.1.customer_cache_reloads == 1,
                CleanupTaskType::NoOp => r.0@ == state@ && r.1.events@.len() == 0
                    && r.1.user_cache_reloads == 0 && r.1.customer_cache_reloads == 0,
            },
    {
        match &task.ty {
            CleanupTaskType::Customers(ids) => cleanup_customers(state, ids),
            CleanupTaskType::Organizations(ids) => cleanup_organizations(state, ids),
            CleanupTaskType::Institutions(ids) => cleanup_institutions(state, ids),
            CleanupTaskType::OrganizationUnits(ids) => cleanup_organization_units(state, ids),
            CleanupTaskType::NoOp => {
                let copy = crate::engine::copy_state(state);
                let effects = RunEffects {
                    user_cache_reloads: 0,
                    customer_cache_reloads: 0,
                    events: Vec::new(),
                };
                (copy, effects)
            },
        }
    }
}

} // verus!
