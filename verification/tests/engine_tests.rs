use qm_customer::access::AccessRole;
use qm_customer::cleanup::{CleanupTask, CleanupTaskType};
use qm_customer::engine::{
    cleanup_customers, cleanup_institutions, cleanup_organization_units, cleanup_organizations,
};
use qm_customer::ids::{
    Cid, CustomerId, CustomerResourceId, EntityId, MemberId, ObjectId, Oid,
    OrganizationResourceId, OrganizationUnitId, StrictInstitutionId, StrictOrganizationId,
    StrictOrganizationUnitId, Iid, Uid,
};
use qm_customer::owner::Owner;
use qm_customer::store::{
    CleanupState, CollectionKind, Doc, EventNs, ExtraCollection, OrganizationUnitDoc, Store,
    UserDoc,
};
use qm_customer::worker::CleanupWorker;

fn oid(v: u128) -> ObjectId {
    ObjectId { value: v }
}

fn entity(cid: Option<u128>, o: Option<u128>, i: Option<u128>, id: Option<u128>) -> EntityId {
    EntityId {
        id: id.map(oid),
        cid: cid.map(oid),
        oid: o.map(oid),
        iid: i.map(oid),
    }
}

/// Customer `C` with one Organization `O`, one Institution `I` under it and
/// one user owned at institution level, plus an unrelated customer `X`.
fn scenario_state() -> CleanupState {
    let c: u128 = 0xc;
    let o: u128 = 0x0a;
    let i: u128 = 0x1;
    let x: u128 = 0xdead;
    CleanupState {
        store: Store {
            customers: vec![
                Doc { id: entity(None, None, None, Some(c)) },
                Doc { id: entity(None, None, None, Some(x)) },
            ],
            organizations: vec![
                Doc { id: entity(Some(c), None, None, Some(o)) },
                Doc { id: entity(Some(x), None, None, Some(0x0b)) },
            ],
            institutions: vec![Doc { id: entity(Some(c), Some(o), None, Some(i)) }],
            organization_units: vec![],
            users: vec![
                UserDoc { owner: Owner::Institution(entity(Some(c), Some(o), Some(i), Some(0x77))) },
                UserDoc { owner: Owner::Customer(entity(Some(x), None, None, Some(0x78))) },
            ],
            extras: vec![],
        },
        roles: vec![
            AccessRole::Customer(CustomerId { id: oid(c) }),
            AccessRole::Organization(CustomerResourceId { cid: oid(c), id: oid(o) }),
            AccessRole::Institution(OrganizationResourceId { cid: oid(c), oid: oid(o), id: oid(i) }),
            AccessRole::Customer(CustomerId { id: oid(x) }),
        ],
        cached_roles: vec![
            AccessRole::Institution(OrganizationResourceId { cid: oid(c), oid: oid(o), id: oid(i) }),
        ],
    }
}

#[test]
fn customer_deletion_cascade_scenario() {
    let state = scenario_state();
    let cids = vec![Cid::new(oid(0xc))];
    let (post, effects) = cleanup_customers(&state, &cids);

    assert!(post
        .store
        .organizations
        .iter()
        .all(|d| d.id.cid != Some(oid(0xc))));
    assert!(post
        .store
        .institutions
        .iter()
        .all(|d| d.id.cid != Some(oid(0xc))));
    assert_eq!(post.store.users.len(), 1);
    assert_eq!(post.store.organizations.len(), 1);
    assert_eq!(post.store.institutions.len(), 0);

    // Every role referencing C, O or I is revoked; the unrelated one stays.
    assert_eq!(
        post.roles,
        vec![AccessRole::Customer(CustomerId { id: oid(0xdead) })]
    );
    assert_eq!(post.cached_roles, vec![]);

    // One reload per cache, one event per touched collection.
    assert_eq!(effects.user_cache_reloads, 1);
    assert_eq!(effects.customer_cache_reloads, 1);
    let kinds: Vec<(EventNs, CollectionKind)> = effects
        .events
        .iter()
        .map(|e| (e.ns, e.collection))
        .collect();
    assert_eq!(
        kinds,
        vec![
            (EventNs::Customer, CollectionKind::Customers),
            (EventNs::Organization, CollectionKind::Organizations),
            (EventNs::Institution, CollectionKind::Institutions),
            (EventNs::User, CollectionKind::Users),
        ]
    );
    for e in &effects.events {
        assert_eq!(e.ids, vec![entity(None, None, None, Some(0xc))]);
    }
}

#[test]
fn cleanup_is_idempotent_on_redelivery() {
    let state = scenario_state();
    let cids = vec![Cid::new(oid(0xc))];
    let (once, _) = cleanup_customers(&state, &cids);
    let (twice, effects) = cleanup_customers(&once, &cids);
    assert_eq!(once, twice);
    // The second delivery still reloads caches and emits the lead event.
    assert_eq!(effects.user_cache_reloads, 1);
    assert_eq!(effects.events.len(), 1);
}

fn org_state() -> CleanupState {
    let c: u128 = 1;
    let o: u128 = 2;
    CleanupState {
        store: Store {
            customers: vec![Doc { id: entity(None, None, None, Some(c)) }],
            organizations: vec![Doc { id: entity(Some(c), None, None, Some(o)) }],
            institutions: vec![
                Doc { id: entity(Some(c), Some(o), None, Some(0x31)) },
                Doc { id: entity(Some(c), Some(9), None, Some(0x32)) },
            ],
            organization_units: vec![OrganizationUnitDoc {
                id: entity(Some(c), None, None, Some(0x41)),
                members: vec![
                    MemberId { cid: oid(c), oid: oid(o), iid: oid(0x31) },
                    MemberId { cid: oid(c), oid: oid(9), iid: oid(0x32) },
                ],
            }],
            users: vec![
                UserDoc { owner: Owner::Institution(entity(Some(c), Some(o), Some(0x31), Some(5))) },
                UserDoc { owner: Owner::Organization(entity(Some(c), Some(9), None, Some(6))) },
            ],
            extras: vec![],
        },
        roles: vec![
            AccessRole::Organization(CustomerResourceId { cid: oid(c), id: oid(o) }),
            AccessRole::Institution(OrganizationResourceId { cid: oid(c), oid: oid(o), id: oid(0x31) }),
            AccessRole::Institution(OrganizationResourceId { cid: oid(c), oid: oid(9), id: oid(0x32) }),
        ],
        cached_roles: vec![],
    }
}

#[test]
fn organization_deletion_contains_ancestors_and_spares_the_rest() {
    let state = org_state();
    let oids = vec![StrictOrganizationId::new(Cid::new(oid(1)), Oid::new(oid(2)))];
    let (post, _) = cleanup_organizations(&state, &oids);

    // Institutions under (C, O) are gone; the sibling under oid 9 stays.
    assert_eq!(post.store.institutions.len(), 1);
    assert_eq!(post.store.institutions[0].id.oid, Some(oid(9)));

    // The membership entry referencing (C, O) was pulled, the other kept.
    assert_eq!(post.store.organization_units.len(), 1);
    assert_eq!(
        post.store.organization_units[0].members,
        vec![MemberId { cid: oid(1), oid: oid(9), iid: oid(0x32) }]
    );

    // Users with (C, O) in their owner chain are gone, others stay.
    assert_eq!(post.store.users.len(), 1);

    // Roles: O itself and the institution that stood under it are revoked;
    // the sibling institution's role survives.
    assert_eq!(
        post.roles,
        vec![AccessRole::Institution(OrganizationResourceId {
            cid: oid(1),
            oid: oid(9),
            id: oid(0x32),
        })]
    );
}

#[test]
fn organization_deletion_is_idempotent() {
    let state = org_state();
    let oids = vec![StrictOrganizationId::new(Cid::new(oid(1)), Oid::new(oid(2)))];
    let (once, _) = cleanup_organizations(&state, &oids);
    let (twice, _) = cleanup_organizations(&once, &oids);
    assert_eq!(once, twice);
}

#[test]
fn institution_deletion_pulls_exact_members() {
    let state = org_state();
    let iids = vec![StrictInstitutionId::new(
        Cid::new(oid(1)),
        Oid::new(oid(2)),
        Iid::new(oid(0x31)),
    )];
    let (post, _) = cleanup_institutions(&state, &iids);
    assert_eq!(
        post.store.organization_units[0].members,
        vec![MemberId { cid: oid(1), oid: oid(9), iid: oid(0x32) }]
    );
    // The institution's own role is revoked, the organization's stays.
    assert!(post
        .roles
        .contains(&AccessRole::Organization(CustomerResourceId { cid: oid(1), id: oid(2) })));
    assert!(!post.roles.contains(&AccessRole::Institution(OrganizationResourceId {
        cid: oid(1),
        oid: oid(2),
        id: oid(0x31),
    })));
}

#[test]
fn organization_unit_deletion_removes_owned_users_only() {
    let unit_user = UserDoc {
        owner: Owner::OrganizationUnit(entity(Some(1), Some(2), Some(0x51), Some(7))),
    };
    let other_user = UserDoc {
        owner: Owner::OrganizationUnit(entity(Some(1), None, Some(0x52), Some(8))),
    };
    let state = CleanupState {
        store: Store {
            customers: vec![],
            organizations: vec![],
            institutions: vec![],
            organization_units: vec![],
            users: vec![unit_user, other_user],
            extras: vec![],
        },
        roles: vec![AccessRole::OrganizationUnit(OrganizationUnitId::Organization(
            OrganizationResourceId { cid: oid(1), oid: oid(2), id: oid(0x51) },
        ))],
        cached_roles: vec![],
    };
    let uids = vec![StrictOrganizationUnitId::new(
        Cid::new(oid(1)),
        Some(Oid::new(oid(2))),
        Uid::new(oid(0x51)),
    )];
    let (post, effects) = cleanup_organization_units(&state, &uids);
    assert_eq!(post.store.users, vec![other_user]);
    assert_eq!(post.roles, vec![]);
    assert_eq!(effects.events.len(), 2);
    assert_eq!(effects.events[0].collection, CollectionKind::OrganizationUnits);
    assert_eq!(effects.events[1].collection, CollectionKind::Users);
}

#[test]
fn the_sweep_covers_every_tagged_collection() {
    let state = CleanupState {
        store: Store {
            customers: vec![],
            organizations: vec![],
            institutions: vec![],
            organization_units: vec![],
            users: vec![],
            extras: vec![ExtraCollection {
                name: "audit_entries".to_string(),
                docs: vec![
                    Doc { id: entity(Some(1), None, None, Some(0x61)) },
                    Doc { id: entity(Some(2), None, None, Some(0x62)) },
                ],
            }],
        },
        roles: vec![],
        cached_roles: vec![],
    };
    let (post, _) = cleanup_customers(&state, &vec![Cid::new(oid(1))]);
    assert_eq!(post.store.extras.len(), 1);
    assert_eq!(post.store.extras[0].name, "audit_entries");
    assert_eq!(
        post.store.extras[0].docs,
        vec![Doc { id: entity(Some(2), None, None, Some(0x62)) }]
    );
}

#[test]
fn noop_task_changes_nothing_and_asks_nothing() {
    let state = scenario_state();
    let task = CleanupTask::new(42, CleanupTaskType::NoOp);
    let (post, effects) = CleanupWorker.run(&state, &task);
    assert_eq!(post, state);
    assert_eq!(effects.user_cache_reloads, 0);
    assert_eq!(effects.customer_cache_reloads, 0);
    assert!(effects.events.is_empty());
}

#[test]
fn worker_dispatches_by_task_type() {
    let state = scenario_state();
    let task = CleanupTask::new(7, CleanupTaskType::Customers(vec![Cid::new(oid(0xc))]));
    assert_eq!(task.ty.name(), "customers");
    let (post, _) = CleanupWorker.run(&state, &task);
    let (direct, _) = cleanup_customers(&state, &vec![Cid::new(oid(0xc))]);
    assert_eq!(post, direct);
}
