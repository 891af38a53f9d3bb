//! The engine's laws: idempotent replay, ancestor containment, and
//! non-cascading behaviour for unrelated data.
//!
//! The work queue delivers a cleanup task at least once, so a run must be
//! safe to repeat: running the same task twice against one starting state
//! ends in the same state as running it once.  A run must also remove every
//! dependent of the deleted nodes - documents, memberships, users, roles -
//! and must not touch anything outside the deleted subtree.  These proofs
//! state those guarantees over the run specifications the executable engine
//! is verified against.

use vstd::prelude::*;

verus! {

use crate::access::AccessRole;
use crate::engine::{cleanup_customers_spec, cleanup_institutions_spec,
    cleanup_organization_units_spec, cleanup_organizations_spec, customer_seed_roles,
    customers_query, customers_roles, doc_roles, inst_seed_roles, inst_scan_roles,
    institutions_query, lemma_doc_roles_contains, lemma_doc_roles_empty,
    lemma_pulled_units_inst_index, lemma_pulled_units_org_index, lemma_swept_docs_idempotent,
    member_inst_hit, member_org_hit, org_cid_values, org_oid_values, org_scan_roles,
    org_seed_roles, organizations_query, organizations_roles, pulled_members_inst,
    pulled_members_org, pulled_unit_inst, pulled_unit_org, pulled_units_inst, pulled_units_org,
    query_hit, revoked, swept_docs, swept_extra, swept_extras, swept_store, swept_units,
    swept_users, swept_users_units, unit_scan_roles, unit_seed_roles, unit_user_hit, QueryView};
use crate::ids::{Cid, CustomerResourceId, MemberId, ObjectId, OrganizationResourceId,
    StrictInstitutionId, StrictOrganizationId, StrictOrganizationUnitId};
use crate::seqs::{filtered, lemma_concat_contains, lemma_filtered_all_true,
    lemma_filtered_contains, lemma_filtered_idempotent, lemma_filtered_sound};
use crate::store::{inst_role_of, org_hit, user_entity, CleanupStateView,
    OrganizationUnitDocView, StoreView, UserDoc, Doc};

proof fn lemma_swept_users_idempotent(users: Seq<UserDoc>, q: QueryView)
    ensures
        swept_users(swept_users(users, q), q) == swept_users(users, q),
{
    lemma_filtered_idempotent(users, |u: UserDoc| !query_hit(user_entity(u), q));
}

proof fn lemma_swept_units_idempotent(units: Seq<OrganizationUnitDocView>, q: QueryView)
    ensures
        swept_units(swept_units(units, q), q) == swept_units(units, q),
{
    lemma_filtered_idempotent(units, |u: OrganizationUnitDocView| !query_hit(u.id, q));
}

proof fn lemma_swept_extras_idempotent(
    extras: Seq<crate::store::ExtraCollectionView>,
    q: QueryView,
)
    ensures
        swept_extras(swept_extras(extras, q), q) == swept_extras(extras, q),
    decreases extras.len(),
{
    if extras.len() > 0 {
        lemma_swept_extras_idempotent(extras.drop_last(), q);
        let inner = swept_extras(extras.drop_last(), q);
        let e1 = swept_extra(extras.last(), q);
        assert(swept_extras(extras, q) == inner.push(e1));
        assert(inner.push(e1).drop_last() =~= inner);
        lemma_swept_docs_idempotent(extras.last().docs, q);
        assert(swept_extra(e1, q) =~= e1);
        assert(swept_extras(inner.push(e1), q) == swept_extras(inner, q).push(
            swept_extra(e1, q),
        ));
    }
}

proof fn lemma_swept_users_units_idempotent(
    users: Seq<UserDoc>,
    uids: Seq<StrictOrganizationUnitId>,
)
    ensures
        swept_users_units(swept_users_units(users, uids), uids) == swept_users_units(
            users,
            uids,
        ),
{
    lemma_filtered_idempotent(users, |u: UserDoc| !unit_user_hit(user_entity(u), uids));
}

/// Revoking a subset of an already-revoked set changes nothing.
proof fn lemma_revoked_subset_noop(
    roles: Seq<AccessRole>,
    big: Seq<AccessRole>,
    small: Seq<AccessRole>,
)
    requires
        forall|x: AccessRole| #[trigger] small.contains(x) ==> big.contains(x),
    ensures
        revoked(revoked(roles, big), small) == revoked(roles, big),
{
    let rb = revoked(roles, big);
    lemma_filtered_sound(roles, |r: AccessRole| !big.contains(r));
    assert forall|i: int| 0 <= i < rb.len() implies !small.contains(#[trigger] rb[i]) by {
        assert(!big.contains(rb[i]));
    }
    assert forall|i: int|
        0 <= i < rb.len() implies (|r: AccessRole| !small.contains(r))(#[trigger] rb[i]) by {
        assert(!small.contains(rb[i]));
    }
    lemma_filtered_all_true(rb, |r: AccessRole| !small.contains(r));
}

/// The whole store sweep is idempotent.
proof fn lemma_swept_store_idempotent(s: StoreView, q: QueryView)
    ensures
        swept_store(swept_store(s, q), q) =~= swept_store(s, q),
{
    lemma_swept_docs_idempotent(s.customers, q);
    lemma_swept_docs_idempotent(s.organizations, q);
    lemma_swept_docs_idempotent(s.institutions, q);
    lemma_swept_units_idempotent(s.organization_units, q);
    lemma_swept_users_idempotent(s.users, q);
    lemma_swept_extras_idempotent(s.extras, q);
}

/// After the sweep, no surviving unit document falls to the query, so a
/// second scan contributes no roles.
proof fn lemma_unit_scan_of_swept_empty(units: Seq<OrganizationUnitDocView>, q: QueryView)
    ensures
        unit_scan_roles(swept_units(units, q), q) == Seq::<AccessRole>::empty(),
{
    let w = swept_units(units, q);
    lemma_filtered_sound(units, |u: OrganizationUnitDocView| !query_hit(u.id, q));
    assert forall|i: int|
        0 <= i < w.len() implies !(|u: OrganizationUnitDocView| query_hit(u.id, q))(
        #[trigger] w[i],
    ) by {
        assert(!query_hit(w[i].id, q));
    }
    lemma_doc_roles_empty(
        w,
        |u: OrganizationUnitDocView| query_hit(u.id, q),
        |u: OrganizationUnitDocView| crate::store::unit_role_of(u.id),
    );
}

/// After the sweep, a second organization scan contributes no roles.
proof fn lemma_org_scan_of_swept_empty(docs: Seq<Doc>, q: QueryView)
    ensures
        org_scan_roles(swept_docs(docs, q), q) == Seq::<AccessRole>::empty(),
{
    let w = swept_docs(docs, q);
    lemma_filtered_sound(docs, |d: Doc| !query_hit(d.id, q));
    assert forall|i: int|
        0 <= i < w.len() implies !(|d: Doc| query_hit(d.id, q))(#[trigger] w[i]) by {
        assert(!query_hit(w[i].id, q));
    }
    lemma_doc_roles_empty(
        w,
        |d: Doc| query_hit(d.id, q),
        |d: Doc| crate::store::org_role_of(d.id),
    );
}

/// After the sweep, a second institution scan contributes no roles.
proof fn lemma_inst_scan_of_swept_empty(docs: Seq<Doc>, q: QueryView)
    ensures
        inst_scan_roles(swept_docs(docs, q), q) == Seq::<AccessRole>::empty(),
{
    let w = swept_docs(docs, q);
    lemma_filtered_sound(docs, |d: Doc| !query_hit(d.id, q));
    assert forall|i: int|
        0 <= i < w.len() implies !(|d: Doc| query_hit(d.id, q))(#[trigger] w[i]) by {
        assert(!query_hit(w[i].id, q));
    }
    lemma_doc_roles_empty(
        w,
        |d: Doc| query_hit(d.id, q),
        |d: Doc| crate::store::inst_role_of(d.id),
    );
}

/// Re-running the same customer-deletion task against the state a first run
/// left behind ends in exactly that state: redelivery is safe.
pub proof fn lemma_cleanup_customers_idempotent(v: CleanupStateView, cids: Seq<Cid>)
    ensures
        cleanup_customers_spec(cleanup_customers_spec(v, cids), cids) == cleanup_customers_spec(
            v,
            cids,
        ),
{
    let q = customers_query(cids);
    let post = cleanup_customers_spec(v, cids);
    let r1 = customers_roles(v.store, cids);
    let r2 = customers_roles(post.store, cids);
    lemma_swept_store_idempotent(v.store, q);
    lemma_unit_scan_of_swept_empty(v.store.organization_units, q);
    lemma_org_scan_of_swept_empty(v.store.organizations, q);
    lemma_inst_scan_of_swept_empty(v.store.institutions, q);
    assert(r2 =~= customer_seed_roles(cids));
    assert forall|x: AccessRole| #[trigger] r2.contains(x) implies r1.contains(x) by {
        lemma_concat_contains(
            customer_seed_roles(cids),
            unit_scan_roles(v.store.organization_units, q),
            x,
        );
        lemma_concat_contains(
            customer_seed_roles(cids) + unit_scan_roles(v.store.organization_units, q),
            org_scan_roles(v.store.organizations, q),
            x,
        );
        lemma_concat_contains(
            customer_seed_roles(cids) + unit_scan_roles(v.store.organization_units, q)
                + org_scan_roles(v.store.organizations, q),
            inst_scan_roles(v.store.institutions, q),
            x,
        );
    }
    lemma_revoked_subset_noop(v.roles, r1, r2);
    lemma_revoked_subset_noop(v.cached_roles, r1, r2);
    assert(cleanup_customers_spec(post, cids) =~= post);
}

/// Membership repair is a no-op on units a first run already repaired and
/// swept.
proof fn lemma_pull_org_noop_on_cleaned(
    units: Seq<OrganizationUnitDocView>,
    cids: Seq<ObjectId>,
    oids: Seq<ObjectId>,
    q: QueryView,
)
    ensures
        pulled_units_org(swept_units(pulled_units_org(units, cids, oids), q), cids, oids)
            == swept_units(pulled_units_org(units, cids, oids), q),
{
    let u1 = pulled_units_org(units, cids, oids);
    let w = swept_units(u1, q);
    lemma_pulled_units_org_index(units, cids, oids);
    lemma_filtered_sound(u1, |u: OrganizationUnitDocView| !query_hit(u.id, q));
    lemma_pulled_units_org_index(w, cids, oids);
    assert forall|i: int|
        0 <= i < w.len() implies #[trigger] pulled_units_org(w, cids, oids)[i] == w[i] by {
        assert(u1.contains(w[i]));
        let j = choose|j: int| 0 <= j < u1.len() && u1[j] == w[i];
        assert(u1[j] == pulled_unit_org(units[j], cids, oids));
        lemma_filtered_idempotent(
            units[j].members,
            |m: MemberId| !member_org_hit(m, cids, oids),
        );
        assert(pulled_unit_org(w[i], cids, oids) =~= w[i]);
    }
    assert(pulled_units_org(w, cids, oids) =~= w);
}

/// Re-running the same organization-deletion task is safe.
pub proof fn lemma_cleanup_organizations_idempotent(
    v: CleanupStateView,
    oids: Seq<StrictOrganizationId>,
)
    ensures
        cleanup_organizations_spec(cleanup_organizations_spec(v, oids), oids)
            == cleanup_organizations_spec(v, oids),
{
    let q = organizations_query(oids);
    let cs = org_cid_values(oids);
    let os = org_oid_values(oids);
    let post = cleanup_organizations_spec(v, oids);
    let r1 = organizations_roles(v.store, oids);
    let r2 = organizations_roles(post.store, oids);
    let pulled = StoreView {
        organization_units: pulled_units_org(v.store.organization_units, cs, os),
        ..v.store
    };
    lemma_swept_docs_idempotent(v.store.customers, q);
    lemma_swept_docs_idempotent(v.store.organizations, q);
    lemma_swept_docs_idempotent(v.store.institutions, q);
    lemma_swept_users_idempotent(v.store.users, q);
    lemma_swept_extras_idempotent(v.store.extras, q);
    lemma_pull_org_noop_on_cleaned(v.store.organization_units, cs, os, q);
    lemma_swept_units_idempotent(pulled.organization_units, q);
    lemma_unit_scan_of_swept_empty(pulled.organization_units, q);
    lemma_inst_scan_of_swept_empty(v.store.institutions, q);
    assert(unit_scan_roles(post.store.organization_units, q) == Seq::<AccessRole>::empty());
    assert(r2 =~= org_seed_roles(oids));
    assert forall|x: AccessRole| #[trigger] r2.contains(x) implies r1.contains(x) by {
        lemma_concat_contains(
            org_seed_roles(oids),
            unit_scan_roles(v.store.organization_units, q),
            x,
        );
        lemma_concat_contains(
            org_seed_roles(oids) + unit_scan_roles(v.store.organization_units, q),
            inst_scan_roles(v.store.institutions, q),
            x,
        );
    }
    lemma_revoked_subset_noop(v.roles, r1, r2);
    lemma_revoked_subset_noop(v.cached_roles, r1, r2);
    assert(cleanup_organizations_spec(post, oids) =~= post);
}

/// Membership repair is a no-op on units a first institution run cleaned.
proof fn lemma_pull_inst_noop_on_cleaned(
    units: Seq<OrganizationUnitDocView>,
    iids: Seq<StrictInstitutionId>,
    q: QueryView,
)
    ensures
        pulled_units_inst(swept_units(pulled_units_inst(units, iids), q), iids) == swept_units(
            pulled_units_inst(units, iids),
            q,
        ),
{
    let u1 = pulled_units_inst(units, iids);
    let w = swept_units(u1, q);
    lemma_pulled_units_inst_index(units, iids);
    lemma_filtered_sound(u1, |u: OrganizationUnitDocView| !query_hit(u.id, q));
    lemma_pulled_units_inst_index(w, iids);
    assert forall|i: int|
        0 <= i < w.len() implies #[trigger] pulled_units_inst(w, iids)[i] == w[i] by {
        assert(u1.contains(w[i]));
        let j = choose|j: int| 0 <= j < u1.len() && u1[j] == w[i];
        assert(u1[j] == pulled_unit_inst(units[j], iids));
        lemma_filtered_idempotent(units[j].members, |m: MemberId| !member_inst_hit(m, iids));
        assert(pulled_unit_inst(w[i], iids) =~= w[i]);
    }
    assert(pulled_units_inst(w, iids) =~= w);
}

/// Re-running the same institution-deletion task is safe.
pub proof fn lemma_cleanup_institutions_idempotent(
    v: CleanupStateView,
    iids: Seq<StrictInstitutionId>,
)
    ensures
        cleanup_institutions_spec(cleanup_institutions_spec(v, iids), iids)
            == cleanup_institutions_spec(v, iids),
{
    let q = institutions_query(iids);
    let post = cleanup_institutions_spec(v, iids);
    let rm = inst_seed_roles(iids);
    let pulled = StoreView {
        organization_units: pulled_units_inst(v.store.organization_units, iids),
        ..v.store
    };
    lemma_swept_docs_idempotent(v.store.customers, q);
    lemma_swept_docs_idempotent(v.store.organizations, q);
    lemma_swept_docs_idempotent(v.store.institutions, q);
    lemma_swept_users_idempotent(v.store.users, q);
    lemma_swept_extras_idempotent(v.store.extras, q);
    lemma_pull_inst_noop_on_cleaned(v.store.organization_units, iids, q);
    lemma_swept_units_idempotent(pulled.organization_units, q);
    lemma_revoked_subset_noop(v.roles, rm, rm);
    lemma_revoked_subset_noop(v.cached_roles, rm, rm);
    assert(cleanup_institutions_spec(post, iids) =~= post);
}

/// Re-running the same organization-unit-deletion task is safe.
pub proof fn lemma_cleanup_organization_units_idempotent(
    v: CleanupStateView,
    uids: Seq<StrictOrganizationUnitId>,
)
    ensures
        cleanup_organization_units_spec(cleanup_organization_units_spec(v, uids), uids)
            == cleanup_organization_units_spec(v, uids),
{
    let post = cleanup_organization_units_spec(v, uids);
    let rm = unit_seed_roles(uids);
    lemma_swept_users_units_idempotent(v.store.users, uids);
    lemma_revoked_subset_noop(v.roles, rm, rm);
    lemma_revoked_subset_noop(v.cached_roles, rm, rm);
    assert(cleanup_organization_units_spec(post, uids) =~= post);
}

/// With at least one deleted organization, the query and the ancestor
/// containment match coincide.
proof fn lemma_query_is_org_hit(e: crate::ids::EntityId, oids: Seq<StrictOrganizationId>)
    requires
        oids.len() > 0,
    ensures
        query_hit(e, organizations_query(oids)) == org_hit(
            e,
            org_cid_values(oids),
            org_oid_values(oids),
        ),
{
    crate::seqs::lemma_mapped_index(oids, |o: StrictOrganizationId| o.cid_spec());
    crate::seqs::lemma_mapped_index(oids, |o: StrictOrganizationId| o.oid_spec());
}

/// Ancestor containment: after an organization deletion, no institution,
/// organization-unit membership entry or user under a deleted organization
/// survives, and the roles of the deleted organizations and of every
/// institution and organization unit that stood under them are revoked.
pub proof fn lemma_organizations_cleanup_containment(
    v: CleanupStateView,
    oids: Seq<StrictOrganizationId>,
)
    ensures
        ({
            let post = cleanup_organizations_spec(v, oids);
            let cs = org_cid_values(oids);
            let os = org_oid_values(oids);
            let q = organizations_query(oids);
            &&& forall|i: int|
                0 <= i < post.store.institutions.len() ==> !org_hit(
                    (#[trigger] post.store.institutions[i]).id,
                    cs,
                    os,
                )
            &&& forall|i: int, j: int|
                0 <= i < post.store.organization_units.len() && 0 <= j < (
                #[trigger] post.store.organization_units[i]).members.len() ==> !member_org_hit(
                    #[trigger] post.store.organization_units[i].members[j],
                    cs,
                    os,
                )
            &&& forall|i: int|
                0 <= i < post.store.users.len() ==> !org_hit(
                    user_entity(#[trigger] post.store.users[i]),
                    cs,
                    os,
                )
            &&& forall|k: int|
                0 <= k < oids.len() ==> !post.roles.contains(
                    AccessRole::Organization(
                        CustomerResourceId {
                            cid: (#[trigger] oids[k]).cid_spec(),
                            id: oids[k].oid_spec(),
                        },
                    ),
                )
            &&& forall|i: int|
                0 <= i < v.store.institutions.len() && query_hit(
                    (#[trigger] v.store.institutions[i]).id,
                    q,
                ) && inst_role_of(v.store.institutions[i].id) is Some ==> !post.roles.contains(
                    inst_role_of(v.store.institutions[i].id)->0,
                )
            &&& forall|i: int|
                0 <= i < v.store.organization_units.len() && query_hit(
                    (#[trigger] v.store.organization_units[i]).id,
                    q,
                ) && crate::store::unit_role_of(v.store.organization_units[i].id) is Some
                    ==> !post.roles.contains(
                    crate::store::unit_role_of(v.store.organization_units[i].id)->0,
                )
        }),
{
    let post = cleanup_organizations_spec(v, oids);
    let cs = org_cid_values(oids);
    let os = org_oid_values(oids);
    let q = organizations_query(oids);
    let r1 = organizations_roles(v.store, oids);
    let pulled = pulled_units_org(v.store.organization_units, cs, os);
    crate::seqs::lemma_mapped_index(oids, |o: StrictOrganizationId| o.cid_spec());
    crate::seqs::lemma_mapped_index(oids, |o: StrictOrganizationId| o.oid_spec());
    // Surviving institutions and users miss the query, hence the match.
    lemma_filtered_sound(v.store.institutions, |d: Doc| !query_hit(d.id, q));
    lemma_filtered_sound(v.store.users, |u: UserDoc| !query_hit(user_entity(u), q));
    assert forall|i: int| 0 <= i < post.store.institutions.len() implies !org_hit(
        (#[trigger] post.store.institutions[i]).id,
        cs,
        os,
    ) by {
        assert(!query_hit(post.store.institutions[i].id, q));
    }
    assert forall|i: int| 0 <= i < post.store.users.len() implies !org_hit(
        user_entity(#[trigger] post.store.users[i]),
        cs,
        os,
    ) by {
        assert(!query_hit(user_entity(post.store.users[i]), q));
    }
    // Surviving membership entries were filtered by the pull.
    lemma_pulled_units_org_index(v.store.organization_units, cs, os);
    lemma_filtered_sound(pulled, |u: OrganizationUnitDocView| !query_hit(u.id, q));
    assert forall|i: int, j: int|
        0 <= i < post.store.organization_units.len() && 0 <= j < (
        #[trigger] post.store.organization_units[i]).members.len() implies !member_org_hit(
        #[trigger] post.store.organization_units[i].members[j],
        cs,
        os,
    ) by {
        let u = post.store.organization_units[i];
        assert(pulled.contains(u));
        let k = choose|k: int| 0 <= k < pulled.len() && pulled[k] == u;
        assert(u == pulled_unit_org(v.store.organization_units[k], cs, os));
        lemma_filtered_sound(
            v.store.organization_units[k].members,
            |m: MemberId| !member_org_hit(m, cs, os),
        );
    }
    // Revoked roles: whatever the computed set holds is gone from the store.
    assert forall|x: AccessRole| r1.contains(x) implies !post.roles.contains(x) by {
        lemma_filtered_contains(v.roles, |r: AccessRole| !r1.contains(r), x);
    }
    // The computed set holds every seed role.
    crate::seqs::lemma_mapped_index(
        oids,
        |o: StrictOrganizationId| AccessRole::Organization(
            CustomerResourceId { cid: o.cid_spec(), id: o.oid_spec() },
        ),
    );
    assert forall|k: int| 0 <= k < oids.len() implies !post.roles.contains(
        AccessRole::Organization(
            CustomerResourceId { cid: (#[trigger] oids[k]).cid_spec(), id: oids[k].oid_spec() },
        ),
    ) by {
        let role = AccessRole::Organization(
            CustomerResourceId { cid: oids[k].cid_spec(), id: oids[k].oid_spec() },
        );
        assert(org_seed_roles(oids)[k] == role);
        assert(org_seed_roles(oids).contains(role));
        lemma_concat_contains(
            org_seed_roles(oids),
            unit_scan_roles(v.store.organization_units, q),
            role,
        );
        lemma_concat_contains(
            org_seed_roles(oids) + unit_scan_roles(v.store.organization_units, q),
            inst_scan_roles(v.store.institutions, q),
            role,
        );
        assert(r1.contains(role));
    }
    // ... and every scanned institution and organization-unit role.
    assert forall|i: int|
        0 <= i < v.store.institutions.len() && query_hit(
            (#[trigger] v.store.institutions[i]).id,
            q,
        ) && inst_role_of(v.store.institutions[i].id) is Some implies !post.roles.contains(
        inst_role_of(v.store.institutions[i].id)->0,
    ) by {
        let role = inst_role_of(v.store.institutions[i].id)->0;
        lemma_doc_roles_contains(
            v.store.institutions,
            |d: Doc| query_hit(d.id, q),
            |d: Doc| crate::store::inst_role_of(d.id),
            i,
        );
        assert(inst_scan_roles(v.store.institutions, q).contains(role));
        lemma_concat_contains(
            org_seed_roles(oids),
            unit_scan_roles(v.store.organization_units, q),
            role,
        );
        lemma_concat_contains(
            org_seed_roles(oids) + unit_scan_roles(v.store.organization_units, q),
            inst_scan_roles(v.store.institutions, q),
            role,
        );
        assert(r1.contains(role));
    }
    assert forall|i: int|
        0 <= i < v.store.organization_units.len() && query_hit(
            (#[trigger] v.store.organization_units[i]).id,
            q,
        ) && crate::store::unit_role_of(v.store.organization_units[i].id) is Some
        implies !post.roles.contains(
        crate::store::unit_role_of(v.store.organization_units[i].id)->0,
    ) by {
        let role = crate::store::unit_role_of(v.store.organization_units[i].id)->0;
        lemma_doc_roles_contains(
            v.store.organization_units,
            |u: OrganizationUnitDocView| query_hit(u.id, q),
            |u: OrganizationUnitDocView| crate::store::unit_role_of(u.id),
            i,
        );
        assert(unit_scan_roles(v.store.organization_units, q).contains(role));
        lemma_concat_contains(
            org_seed_roles(oids),
            unit_scan_roles(v.store.organization_units, q),
            role,
        );
        lemma_concat_contains(
            org_seed_roles(oids) + unit_scan_roles(v.store.organization_units, q),
            inst_scan_roles(v.store.institutions, q),
            role,
        );
        assert(r1.contains(role));
    }
}

/// Non-cascading: an organization deletion leaves every document outside
/// the deleted organizations untouched - other customers' data, sibling
/// organizations' data, and membership entries that reference nothing
/// deleted all survive.
pub proof fn lemma_organizations_cleanup_non_cascading(
    v: CleanupStateView,
    oids: Seq<StrictOrganizationId>,
)
    requires
        oids.len() > 0,
    ensures
        ({
            let post = cleanup_organizations_spec(v, oids);
            let cs = org_cid_values(oids);
            let os = org_oid_values(oids);
            &&& forall|i: int|
                0 <= i < v.store.institutions.len() && !org_hit(
                    (#[trigger] v.store.institutions[i]).id,
                    cs,
                    os,
                ) ==> post.store.institutions.contains(v.store.institutions[i])
            &&& forall|i: int|
                0 <= i < v.store.organizations.len() && !org_hit(
                    (#[trigger] v.store.organizations[i]).id,
                    cs,
                    os,
                ) ==> post.store.organizations.contains(v.store.organizations[i])
            &&& forall|i: int|
                0 <= i < v.store.users.len() && !org_hit(
                    user_entity(#[trigger] v.store.users[i]),
                    cs,
                    os,
                ) ==> post.store.users.contains(v.store.users[i])
            &&& forall|i: int|
                0 <= i < v.store.organization_units.len() && !org_hit(
                    (#[trigger] v.store.organization_units[i]).id,
                    cs,
                    os,
                ) ==> post.store.organization_units.contains(
                    pulled_unit_org(v.store.organization_units[i], cs, os),
                )
            &&& forall|i: int, j: int|
                0 <= i < v.store.organization_units.len() && 0 <= j < (
                #[trigger] v.store.organization_units[i]).members.len() && !member_org_hit(
                    #[trigger] v.store.organization_units[i].members[j],
                    cs,
                    os,
                ) ==> pulled_unit_org(v.store.organization_units[i], cs, os).members.contains(
                    v.store.organization_units[i].members[j],
                )
        }),
{
    let post = cleanup_organizations_spec(v, oids);
    let cs = org_cid_values(oids);
    let os = org_oid_values(oids);
    let q = organizations_query(oids);
    let pulled = pulled_units_org(v.store.organization_units, cs, os);
    lemma_pulled_units_org_index(v.store.organization_units, cs, os);
    assert forall|i: int|
        0 <= i < v.store.institutions.len() && !org_hit(
            (#[trigger] v.store.institutions[i]).id,
            cs,
            os,
        ) implies post.store.institutions.contains(v.store.institutions[i]) by {
        lemma_query_is_org_hit(v.store.institutions[i].id, oids);
        lemma_filtered_contains(
            v.store.institutions,
            |d: Doc| !query_hit(d.id, q),
            v.store.institutions[i],
        );
        assert(v.store.institutions.contains(v.store.institutions[i]));
    }
    assert forall|i: int|
        0 <= i < v.store.organizations.len() && !org_hit(
            (#[trigger] v.store.organizations[i]).id,
            cs,
            os,
        ) implies post.store.organizations.contains(v.store.organizations[i]) by {
        lemma_query_is_org_hit(v.store.organizations[i].id, oids);
        lemma_filtered_contains(
            v.store.organizations,
            |d: Doc| !query_hit(d.id, q),
            v.store.organizations[i],
        );
        assert(v.store.organizations.contains(v.store.organizations[i]));
    }
    assert forall|i: int|
        0 <= i < v.store.users.len() && !org_hit(
            user_entity(#[trigger] v.store.users[i]),
            cs,
            os,
        ) implies post.store.users.contains(v.store.users[i]) by {
        lemma_query_is_org_hit(user_entity(v.store.users[i]), oids);
        lemma_filtered_contains(
            v.store.users,
            |u: UserDoc| !query_hit(user_entity(u), q),
            v.store.users[i],
        );
        assert(v.store.users.contains(v.store.users[i]));
    }
    assert forall|i: int|
        0 <= i < v.store.organization_units.len() && !org_hit(
            (#[trigger] v.store.organization_units[i]).id,
            cs,
            os,
        ) implies post.store.organization_units.contains(
        pulled_unit_org(v.store.organization_units[i], cs, os),
    ) by {
        let pu = pulled_unit_org(v.store.organization_units[i], cs, os);
        assert(pulled[i] == pu);
        assert(pulled.contains(pu));
        lemma_query_is_org_hit(v.store.organization_units[i].id, oids);
        assert(pu.id == v.store.organization_units[i].id);
        lemma_filtered_contains(pulled, |u: OrganizationUnitDocView| !query_hit(u.id, q), pu);
    }
    assert forall|i: int, j: int|
        0 <= i < v.store.organization_units.len() && 0 <= j < (
        #[trigger] v.store.organization_units[i]).members.len() && !member_org_hit(
        #[trigger] v.store.organization_units[i].members[j],
        cs,
        os,
    ) implies pulled_unit_org(v.store.organization_units[i], cs, os).members.contains(
        v.store.organization_units[i].members[j],
    ) by {
        let m = v.store.organization_units[i].members[j];
        lemma_filtered_contains(
            v.store.organization_units[i].members,
            |m: MemberId| !member_org_hit(m, cs, os),
            m,
        );
        assert(v.store.organization_units[i].members.contains(m));
    }
}

} // verus!
