//! The cascading cleanup engine.
//!
//! One run takes the state a session sees and one cleanup task, and brings
//! every derived artifact of the deleted nodes to a consistent state: it
//! computes the role set to revoke (the deleted nodes' own entries plus one
//! per still-extant descendant), repairs Organization Unit memberships,
//! sweeps every collection by ancestor-containment match, revokes the roles
//! from the role store and the user cache's index, and asks for cache
//! reloads and deletion events.  Every step is idempotent, so a redelivered
//! task re-executes the whole run safely.

use vstd::prelude::*;

verus! {

use crate::access::AccessRole;
use crate::ids::{Cid, CustomerId, CustomerResourceId, EntityId, MemberId, ObjectId,
    OrganizationResourceId, OrganizationUnitId, StrictInstitutionId, StrictOrganizationId,
    StrictOrganizationUnitId};
use crate::seqs::{filtered, mapped};
use crate::store::{contains_id, contains_role, id_in, inst_role_of, opt_id_in, org_role_of,
    unit_role_of, user_entity, CleanupState, CleanupStateView, CollectionKind, DeleteEvent,
    DeleteEventView, Doc, EventNs, ExtraCollection, ExtraCollectionView, OrganizationUnitDoc,
    OrganizationUnitDocView, RunEffects, Store, StoreView, UserDoc, events_view, units_view,
    extras_view};

/// The ancestor-containment query of one run: a document matches when each
/// non-empty id set holds the document's field at that level.
pub struct Query {
    pub cids: Vec<ObjectId>,
    pub oids: Vec<ObjectId>,
    pub iids: Vec<ObjectId>,
}

#[verifier::ext_equal]
pub struct QueryView {
    pub cids: Seq<ObjectId>,
    pub oids: Seq<ObjectId>,
    pub iids: Seq<ObjectId>,
}

impl View for Query {
    type V = QueryView;

    open spec fn view(&self) -> QueryView {
        QueryView { cids: self.cids@, oids: self.oids@, iids: self.iids@ }
    }
}

/// Whether a document with ancestor fields `e` falls to the query.
pub open spec fn query_hit(e: EntityId, q: QueryView) -> bool {
    id_in(q.cids, e.cid) && (q.oids.len() == 0 || id_in(q.oids, e.oid)) && (q.iids.len() == 0
        || id_in(q.iids, e.iid))
}

impl Query {
    pub fn matches(&self, e: &EntityId) -> (r: bool)
        ensures
            r == query_hit(*e, self@),
    {
        opt_id_in(&self.cids, &e.cid) && (self.oids.len() == 0 || opt_id_in(&self.oids, &e.oid))
            && (self.iids.len() == 0 || opt_id_in(&self.iids, &e.iid))
    }
}

/// The documents of an ancestor-tagged collection that survive the sweep.
pub open spec fn swept_docs(docs: Seq<Doc>, q: QueryView) -> Seq<Doc> {
    filtered(docs, |d: Doc| !query_hit(d.id, q))
}

/// The user documents that survive the sweep; the query reads the owner's
/// embedded ancestor chain.
pub open spec fn swept_users(users: Seq<UserDoc>, q: QueryView) -> Seq<UserDoc> {
    filtered(users, |u: UserDoc| !query_hit(user_entity(u), q))
}

/// The unit documents that survive the sweep.
pub open spec fn swept_units(
    units: Seq<OrganizationUnitDocView>,
    q: QueryView,
) -> Seq<OrganizationUnitDocView> {
    filtered(units, |u: OrganizationUnitDocView| !query_hit(u.id, q))
}

/// One extra collection after the sweep.
pub open spec fn swept_extra(c: ExtraCollectionView, q: QueryView) -> ExtraCollectionView {
    ExtraCollectionView { name: c.name, docs: swept_docs(c.docs, q) }
}

/// Every extra collection after the sweep, in order.
pub open spec fn swept_extras(
    extras: Seq<ExtraCollectionView>,
    q: QueryView,
) -> Seq<ExtraCollectionView>
    decreases extras.len(),
{
    if extras.len() == 0 {
        Seq::empty()
    } else {
        swept_extras(extras.drop_last(), q).push(swept_extra(extras.last(), q))
    }
}

/// The whole document store after the cascade sweep.
pub open spec fn swept_store(s: StoreView, q: QueryView) -> StoreView {
    StoreView {
        customers: swept_docs(s.customers, q),
        organizations: swept_docs(s.organizations, q),
        institutions: swept_docs(s.institutions, q),
        organization_units: swept_units(s.organization_units, q),
        users: swept_users(s.users, q),
        extras: swept_extras(s.extras, q),
    }
}

/// Sweeping a collection twice with one query equals sweeping it once.
pub proof fn lemma_swept_docs_idempotent(docs: Seq<Doc>, q: QueryView)
    ensures
        swept_docs(swept_docs(docs, q), q) == swept_docs(docs, q),
{
    crate::seqs::lemma_filtered_idempotent(docs, |d: Doc| !query_hit(d.id, q));
}

/// A role set after revocation: every occurrence of a removed role is gone,
/// revoking an already-absent role is a no-op.
pub open spec fn revoked(roles: Seq<AccessRole>, removed: Seq<AccessRole>) -> Seq<AccessRole> {
    filtered(roles, |r: AccessRole| !removed.contains(r))
}

/// Sweep one ancestor-tagged collection.
fn sweep_docs(docs: &Vec<Doc>, q: &Query) -> (r: Vec<Doc>)
    ensures
        r@ == swept_docs(docs@, q@),
{
    let ghost orig = docs@;
    let mut out: Vec<Doc> = Vec::new();
    let mut i: usize = 0;
    while i < docs.len()
        invariant
            i <= orig.len(),
            docs@ == orig,
            out@ == swept_docs(orig.subrange(0, i as int), q@),
        decreases orig.len() - i,
    {
        proof {
            assert(orig.subrange(0, i + 1).drop_last() =~= orig.subrange(0, i as int));
            assert(orig.subrange(0, i + 1).last() == orig[i as int]);
        }
        if !q.matches(&docs[i].id) {
            out.push(docs[i]);
        }
        i = i + 1;
    }
    proof {
        assert(orig.subrange(0, orig.len() as int) =~= orig);
    }
    out
}

/// Sweep the users collection by the owners' ancestor chains.
fn sweep_users(users: &Vec<UserDoc>, q: &Query) -> (r: Vec<UserDoc>)
    ensures
        r@ == swept_users(users@, q@),
{
    let ghost orig = users@;
    let mut out: Vec<UserDoc> = Vec::new();
    let mut i: usize = 0;
    while i < users.len()
        invariant
            i <= orig.len(),
            users@ == orig,
            out@ == swept_users(orig.subrange(0, i as int), q@),
        decreases orig.len() - i,
    {
        proof {
            assert(orig.subrange(0, i + 1).drop_last() =~= orig.subrange(0, i as int));
            assert(orig.subrange(0, i + 1).last() == orig[i as int]);
        }
        if !q.matches(users[i].owner.entity_id()) {
            out.push(users[i]);
        }
        i = i + 1;
    }
    proof {
        assert(orig.subrange(0, orig.len() as int) =~= orig);
    }
    out
}

/// Copy a membership list.
fn copy_members(v: &Vec<MemberId>) -> (r: Vec<MemberId>)
    ensures
        r@ == v@,
{
    let mut out: Vec<MemberId> = Vec::new();
    let mut i: usize = 0;
    while i < v.len()
        invariant
            i <= v@.len(),
            out@ == v@.subrange(0, i as int),
        decreases v@.len() - i,
    {
        out.push(v[i]);
        i = i + 1;
    }
    proof {
        assert(v@.subrange(0, v@.len() as int) =~= v@);
    }
    out
}

/// Sweep the organization-units collection.
fn sweep_units(units: &Vec<OrganizationUnitDoc>, q: &Query) -> (r: Vec<OrganizationUnitDoc>)
    ensures
        units_view(r@) == swept_units(units_view(units@), q@),
{
    let ghost orig = units_view(units@);
    proof {
        crate::seqs::lemma_mapped_index(units@, |u: OrganizationUnitDoc| u@);
    }
    let mut out: Vec<OrganizationUnitDoc> = Vec::new();
    let mut i: usize = 0;
    while i < units.len()
        invariant
            i <= units@.len(),
            orig == units_view(units@),
            orig.len() == units@.len(),
            forall|j: int| 0 <= j < units@.len() ==> #[trigger] orig[j] == units@[j]@,
            units_view(out@) == swept_units(orig.subrange(0, i as int), q@),
        decreases units@.len() - i,
    {
        proof {
            assert(orig.subrange(0, i + 1).drop_last() =~= orig.subrange(0, i as int));
            assert(orig.subrange(0, i + 1).last() == orig[i as int]);
        }
        let ghost pre = out@;
        if !q.matches(&units[i].id) {
            let copied = OrganizationUnitDoc {
                id: units[i].id,
                members: copy_members(&units[i].members),
            };
            proof {
                assert(copied@ == units@[i as int]@);
            }
            out.push(copied);
            proof {
                assert(pre.push(copied).drop_last() =~= pre);
                assert(units_view(out@) == units_view(pre).push(copied@));
            }
        }
        i = i + 1;
    }
    proof {
        assert(orig.subrange(0, orig.len() as int) =~= orig);
    }
    out
}

/// Sweep every extra collection.
fn sweep_extras(extras: &Vec<ExtraCollection>, q: &Query) -> (r: Vec<ExtraCollection>)
    ensures
        extras_view(r@) == swept_extras(extras_view(extras@), q@),
{
    let ghost orig = extras_view(extras@);
    proof {
        crate::seqs::lemma_mapped_index(extras@, |c: ExtraCollection| c@);
    }
    let mut out: Vec<ExtraCollection> = Vec::new();
    let mut i: usize = 0;
    while i < extras.len()
        invariant
            i <= extras@.len(),
            orig == extras_view(extras@),
            orig.len() == extras@.len(),
            forall|j: int| 0 <= j < extras@.len() ==> #[trigger] orig[j] == extras@[j]@,
            extras_view(out@) == swept_extras(orig.subrange(0, i as int), q@),
        decreases extras@.len() - i,
    {
        proof {
            assert(orig.subrange(0, i + 1).drop_last() =~= orig.subrange(0, i as int));
            assert(orig.subrange(0, i + 1).last() == orig[i as int]);
        }
        let ghost pre = out@;
        let swept = ExtraCollection {
            name: extras[i].name.clone(),
            docs: sweep_docs(&extras[i].docs, q),
        };
        proof {
            assert(swept@ == swept_extra(extras@[i as int]@, q@));
        }
        out.push(swept);
        proof {
            assert(pre.push(swept).drop_last() =~= pre);
            assert(extras_view(out@) == extras_view(pre).push(swept@));
        }
        i = i + 1;
    }
    proof {
        assert(orig.subrange(0, orig.len() as int) =~= orig);
    }
    out
}

/// Whether a membership entry references a deleted organization pair.
pub open spec fn member_org_hit(m: MemberId, cids: Seq<ObjectId>, oids: Seq<ObjectId>) -> bool {
    cids.contains(m.cid) && oids.contains(m.oid)
}

/// A membership list after organization deletion: entries referencing a
/// deleted `(cid, oid)` pair are pulled.
pub open spec fn pulled_members_org(
    members: Seq<MemberId>,
    cids: Seq<ObjectId>,
    oids: Seq<ObjectId>,
) -> Seq<MemberId> {
    filtered(members, |m: MemberId| !member_org_hit(m, cids, oids))
}

/// One unit document after organization-deletion membership repair.
pub open spec fn pulled_unit_org(
    u: OrganizationUnitDocView,
    cids: Seq<ObjectId>,
    oids: Seq<ObjectId>,
) -> OrganizationUnitDocView {
    OrganizationUnitDocView { id: u.id, members: pulled_members_org(u.members, cids, oids) }
}

/// Every unit document after organization-deletion membership repair.
pub open spec fn pulled_units_org(
    units: Seq<OrganizationUnitDocView>,
    cids: Seq<ObjectId>,
    oids: Seq<ObjectId>,
) -> Seq<OrganizationUnitDocView>
    decreases units.len(),
{
    if units.len() == 0 {
        Seq::empty()
    } else {
        pulled_units_org(units.drop_last(), cids, oids).push(
            pulled_unit_org(units.last(), cids, oids),
        )
    }
}

/// Whether a membership entry names one of the deleted institutions exactly.
pub open spec fn member_inst_hit(m: MemberId, iids: Seq<StrictInstitutionId>) -> bool {
    exists|i: int|
        0 <= i < iids.len() && iids[i].cid_spec() == m.cid && iids[i].oid_spec() == m.oid
            && iids[i].iid_spec() == m.iid
}

/// A membership list after institution deletion: exact entries pulled.
pub open spec fn pulled_members_inst(
    members: Seq<MemberId>,
    iids: Seq<StrictInstitutionId>,
) -> Seq<MemberId> {
    filtered(members, |m: MemberId| !member_inst_hit(m, iids))
}

/// One unit document after institution-deletion membership repair.
pub open spec fn pulled_unit_inst(
    u: OrganizationUnitDocView,
    iids: Seq<StrictInstitutionId>,
) -> OrganizationUnitDocView {
    OrganizationUnitDocView { id: u.id, members: pulled_members_inst(u.members, iids) }
}

/// Every unit document after institution-deletion membership repair.
pub open spec fn pulled_units_inst(
    units: Seq<OrganizationUnitDocView>,
    iids: Seq<StrictInstitutionId>,
) -> Seq<OrganizationUnitDocView>
    decreases units.len(),
{
    if units.len() == 0 {
        Seq::empty()
    } else {
        pulled_units_inst(units.drop_last(), iids).push(pulled_unit_inst(units.last(), iids))
    }
}

/// Whether a membership entry falls to the organization pull.
fn member_org_matches(m: &MemberId, cids: &Vec<ObjectId>, oids: &Vec<ObjectId>) -> (r: bool)
    ensures
        r == member_org_hit(*m, cids@, oids@),
{
    contains_id(cids, m.cid) && contains_id(oids, m.oid)
}

/// Whether a membership entry names one of the deleted institutions.
fn member_inst_matches(m: &MemberId, iids: &Vec<StrictInstitutionId>) -> (r: bool)
    ensures
        r == member_inst_hit(*m, iids@),
{
    let mut i: usize = 0;
    while i < iids.len()
        invariant
            i <= iids@.len(),
            forall|j: int|
                0 <= j < i ==> !(iids@[j].cid_spec() == m.cid && #[trigger] iids@[j].oid_spec()
                    == m.oid && iids@[j].iid_spec() == m.iid),
        decreases iids@.len() - i,
    {
        let c = iids[i].as_cid();
        let o = iids[i].as_oid();
        let n = iids[i].as_iid();
        if c.as_id() == m.cid && o.as_id() == m.oid && n.as_id() == m.iid {
            return true;
        }
        i = i + 1;
    }
    false
}

/// Pull deleted-organization members from every unit document.
fn pull_units_org(
    units: &Vec<OrganizationUnitDoc>,
    cids: &Vec<ObjectId>,
    oids: &Vec<ObjectId>,
) -> (r: Vec<OrganizationUnitDoc>)
    ensures
        units_view(r@) == pulled_units_org(units_view(units@), cids@, oids@),
{
    let ghost orig = units_view(units@);
    proof {
        crate::seqs::lemma_mapped_index(units@, |u: OrganizationUnitDoc| u@);
    }
    let mut out: Vec<OrganizationUnitDoc> = Vec::new();
    let mut i: usize = 0;
    while i < units.len()
        invariant
            i <= units@.len(),
            orig == units_view(units@),
            orig.len() == units@.len(),
            forall|j: int| 0 <= j < units@.len() ==> #[trigger] orig[j] == units@[j]@,
            units_view(out@) == pulled_units_org(orig.subrange(0, i as int), cids@, oids@),
        decreases units@.len() - i,
    {
        proof {
            assert(orig.subrange(0, i + 1).drop_last() =~= orig.subrange(0, i as int));
            assert(orig.subrange(0, i + 1).last() == orig[i as int]);
        }
        let ghost pre = out@;
        let ghost morig = units@[i as int].members@;
        let mut members: Vec<MemberId> = Vec::new();
        let mut k: usize = 0;
        while k < units[i].members.len()
            invariant
                i < units@.len(),
                k <= morig.len(),
                units@[i as int].members@ == morig,
                members@ == pulled_members_org(morig.subrange(0, k as int), cids@, oids@),
            decreases morig.len() - k,
        {
            proof {
                assert(morig.subrange(0, k + 1).drop_last() =~= morig.subrange(0, k as int));
                assert(morig.subrange(0, k + 1).last() == morig[k as int]);
            }
            if !member_org_matches(&units[i].members[k], cids, oids) {
                members.push(units[i].members[k]);
            }
            k = k + 1;
        }
        proof {
            assert(morig.subrange(0, morig.len() as int) =~= morig);
        }
        let pulled = OrganizationUnitDoc { id: units[i].id, members };
        proof {
            assert(pulled@ == pulled_unit_org(orig[i as int], cids@, oids@));
        }
        out.push(pulled);
        proof {
            assert(pre.push(pulled).drop_last() =~= pre);
            assert(units_view(out@) == units_view(pre).push(pulled@));
        }
        i = i + 1;
    }
    proof {
        assert(orig.subrange(0, orig.len() as int) =~= orig);
    }
    out
}

/// Pull exactly the deleted institutions from every unit's membership.
fn pull_units_inst(
    units: &Vec<OrganizationUnitDoc>,
    iids: &Vec<StrictInstitutionId>,
) -> (r: Vec<OrganizationUnitDoc>)
    ensures
        units_view(r@) == pulled_units_inst(units_view(units@), iids@),
{
    let ghost orig = units_view(units@);
    proof {
        crate::seqs::lemma_mapped_index(units@, |u: OrganizationUnitDoc| u@);
    }
    let mut out: Vec<OrganizationUnitDoc> = Vec::new();
    let mut i: usize = 0;
    while i < units.len()
        invariant
            i <= units@.len(),
            orig == units_view(units@),
            orig.len() == units@.len(),
            forall|j: int| 0 <= j < units@.len() ==> #[trigger] orig[j] == units@[j]@,
            units_view(out@) == pulled_units_inst(orig.subrange(0, i as int), iids@),
        decreases units@.len() - i,
    {
        proof {
            assert(orig.subrange(0, i + 1).drop_last() =~= orig.subrange(0, i as int));
            assert(orig.subrange(0, i + 1).last() == orig[i as int]);
        }
        let ghost pre = out@;
        let ghost morig = units@[i as int].members@;
        let mut members: Vec<MemberId> = Vec::new();
        let mut k: usize = 0;
        while k < units[i].members.len()
            invariant
                i < units@.len(),
                k <= morig.len(),
                units@[i as int].members@ == morig,
                members@ == pulled_members_inst(morig.subrange(0, k as int), iids@),
            decreases morig.len() - k,
        {
            proof {
                assert(morig.subrange(0, k + 1).drop_last() =~= morig.subrange(0, k as int));
                assert(morig.subrange(0, k + 1).last() == morig[k as int]);
            }
            if !member_inst_matches(&units[i].members[k], iids) {
                members.push(units[i].members[k]);
            }
            k = k + 1;
        }
        proof {
            assert(morig.subrange(0, morig.len() as int) =~= morig);
        }
        let pulled = OrganizationUnitDoc { id: units[i].id, members };
        proof {
            assert(pulled@ == pulled_unit_inst(orig[i as int], iids@));
        }
        out.push(pulled);
        proof {
            assert(pre.push(pulled).drop_last() =~= pre);
            assert(units_view(out@) == units_view(pre).push(pulled@));
        }
        i = i + 1;
    }
    proof {
        assert(orig.subrange(0, orig.len() as int) =~= orig);
    }
    out
}

/// Roles contributed by the documents of one collection: one entry per
/// document falling to the predicate whose identifier projects to a role.
pub open spec fn doc_roles<T>(
    docs: Seq<T>,
    p: spec_fn(T) -> bool,
    f: spec_fn(T) -> Option<AccessRole>,
) -> Seq<AccessRole>
    decreases docs.len(),
{
    if docs.len() == 0 {
        Seq::empty()
    } else {
        let rest = doc_roles(docs.drop_last(), p, f);
        if p(docs.last()) {
            match f(docs.last()) {
                Some(r) => rest.push(r),
                None => rest,
            }
        } else {
            rest
        }
    }
}

/// A scan over documents that all miss the predicate contributes no roles.
pub proof fn lemma_doc_roles_empty<T>(
    docs: Seq<T>,
    p: spec_fn(T) -> bool,
    f: spec_fn(T) -> Option<AccessRole>,
)
    requires
        forall|i: int| 0 <= i < docs.len() ==> !p(#[trigger] docs[i]),
    ensures
        doc_roles(docs, p, f) == Seq::<AccessRole>::empty(),
    decreases docs.len(),
{
    if docs.len() > 0 {
        assert(forall|i: int|
            0 <= i < docs.drop_last().len() ==> !p(#[trigger] docs.drop_last()[i]));
        lemma_doc_roles_empty(docs.drop_last(), p, f);
        assert(!p(docs.last()));
    }
}

/// A document that falls to the predicate contributes its role to the scan.
pub proof fn lemma_doc_roles_contains<T>(
    docs: Seq<T>,
    p: spec_fn(T) -> bool,
    f: spec_fn(T) -> Option<AccessRole>,
    i: int,
)
    requires
        0 <= i < docs.len(),
        p(docs[i]),
        f(docs[i]) is Some,
    ensures
        doc_roles(docs, p, f).contains(f(docs[i])->0),
    decreases docs.len(),
{
    if i < docs.len() - 1 {
        lemma_doc_roles_contains(docs.drop_last(), p, f, i);
        let rest = doc_roles(docs.drop_last(), p, f);
        let j = choose|j: int| 0 <= j < rest.len() && rest[j] == f(docs[i])->0;
        if p(docs.last()) {
            match f(docs.last()) {
                Some(r) => {
                    assert(doc_roles(docs, p, f)[j] == f(docs[i])->0);
                },
                None => {},
            }
        }
    } else {
        let rest = doc_roles(docs.drop_last(), p, f);
        assert(doc_roles(docs, p, f)[rest.len() as int] == f(docs[i])->0);
    }
}

/// Index form of organization-deletion membership repair.
pub proof fn lemma_pulled_units_org_index(
    units: Seq<OrganizationUnitDocView>,
    cids: Seq<ObjectId>,
    oids: Seq<ObjectId>,
)
    ensures
        pulled_units_org(units, cids, oids).len() == units.len(),
        forall|i: int|
            0 <= i < units.len() ==> #[trigger] pulled_units_org(units, cids, oids)[i]
                == pulled_unit_org(units[i], cids, oids),
    decreases units.len(),
{
    if units.len() > 0 {
        lemma_pulled_units_org_index(units.drop_last(), cids, oids);
        assert forall|i: int| 0 <= i < units.len() implies #[trigger] pulled_units_org(
            units,
            cids,
            oids,
        )[i] == pulled_unit_org(units[i], cids, oids) by {
            if i < units.len() - 1 {
                assert(pulled_units_org(units, cids, oids)[i] == pulled_units_org(
                    units.drop_last(),
                    cids,
                    oids,
                )[i]);
                assert(units.drop_last()[i] == units[i]);
            }
        }
    }
}

/// Index form of institution-deletion membership repair.
pub proof fn lemma_pulled_units_inst_index(
    units: Seq<OrganizationUnitDocView>,
    iids: Seq<StrictInstitutionId>,
)
    ensures
        pulled_units_inst(units, iids).len() == units.len(),
        forall|i: int|
            0 <= i < units.len() ==> #[trigger] pulled_units_inst(units, iids)[i]
                == pulled_unit_inst(units[i], iids),
    decreases units.len(),
{
    if units.len() > 0 {
        lemma_pulled_units_inst_index(units.drop_last(), iids);
        assert forall|i: int| 0 <= i < units.len() implies #[trigger] pulled_units_inst(
            units,
            iids,
        )[i] == pulled_unit_inst(units[i], iids) by {
            if i < units.len() - 1 {
                assert(pulled_units_inst(units, iids)[i] == pulled_units_inst(
                    units.drop_last(),
                    iids,
                )[i]);
                assert(units.drop_last()[i] == units[i]);
            }
        }
    }
}

/// Seed roles of a customer deletion: one per deleted customer.
pub open spec fn customer_seed_roles(cids: Seq<Cid>) -> Seq<AccessRole> {
    mapped(cids, |c: Cid| AccessRole::Customer(CustomerId { id: c.cid }))
}

/// Seed roles of an organization deletion.
pub open spec fn org_seed_roles(oids: Seq<StrictOrganizationId>) -> Seq<AccessRole> {
    mapped(
        oids,
        |o: StrictOrganizationId| AccessRole::Organization(
            CustomerResourceId { cid: o.cid_spec(), id: o.oid_spec() },
        ),
    )
}

/// Seed roles of an institution deletion.
pub open spec fn inst_seed_roles(iids: Seq<StrictInstitutionId>) -> Seq<AccessRole> {
    mapped(
        iids,
        |i: StrictInstitutionId| AccessRole::Institution(
            OrganizationResourceId { cid: i.cid_spec(), oid: i.oid_spec(), id: i.iid_spec() },
        ),
    )
}

/// Seed roles of an organization-unit deletion, by root variant.
pub open spec fn unit_seed_roles(uids: Seq<StrictOrganizationUnitId>) -> Seq<AccessRole> {
    mapped(
        uids,
        |u: StrictOrganizationUnitId| AccessRole::OrganizationUnit(
            match u.oid_spec() {
                Some(oid) => OrganizationUnitId::Organization(
                    OrganizationResourceId { cid: u.cid_spec(), oid, id: u.uid_spec() },
                ),
                None => OrganizationUnitId::Customer(
                    CustomerResourceId { cid: u.cid_spec(), id: u.uid_spec() },
                ),
            },
        ),
    )
}

/// Roles of the still-extant organization units falling to the query.
pub open spec fn unit_scan_roles(
    units: Seq<OrganizationUnitDocView>,
    q: QueryView,
) -> Seq<AccessRole> {
    doc_roles(
        units,
        |u: OrganizationUnitDocView| query_hit(u.id, q),
        |u: OrganizationUnitDocView| unit_role_of(u.id),
    )
}

/// Roles of the still-extant organizations falling to the query.
pub open spec fn org_scan_roles(docs: Seq<Doc>, q: QueryView) -> Seq<AccessRole> {
    doc_roles(docs, |d: Doc| query_hit(d.id, q), |d: Doc| org_role_of(d.id))
}

/// Roles of the still-extant institutions falling to the query.
pub open spec fn inst_scan_roles(docs: Seq<Doc>, q: QueryView) -> Seq<AccessRole> {
    doc_roles(docs, |d: Doc| query_hit(d.id, q), |d: Doc| inst_role_of(d.id))
}

/// Append the unit roles found by scanning the collection.
fn scan_unit_roles(units: &Vec<OrganizationUnitDoc>, q: &Query, acc: &mut Vec<AccessRole>)
    ensures
        final(acc)@ == old(acc)@ + unit_scan_roles(units_view(units@), q@),
{
    let ghost orig = units_view(units@);
    let ghost pre = old(acc)@;
    proof {
        crate::seqs::lemma_mapped_index(units@, |u: OrganizationUnitDoc| u@);
        assert(pre + unit_scan_roles(orig.subrange(0, 0), q@) =~= pre);
    }
    let mut i: usize = 0;
    while i < units.len()
        invariant
            i <= units@.len(),
            orig == units_view(units@),
            orig.len() == units@.len(),
            forall|j: int| 0 <= j < units@.len() ==> #[trigger] orig[j] == units@[j]@,
            acc@ == pre + unit_scan_roles(orig.subrange(0, i as int), q@),
        decreases units@.len() - i,
    {
        proof {
            assert(orig.subrange(0, i + 1).drop_last() =~= orig.subrange(0, i as int));
            assert(orig.subrange(0, i + 1).last() == orig[i as int]);
        }
        if q.matches(&units[i].id) {
            let e = &units[i].id;
            match (e.cid, e.oid, e.id) {
                (Some(cid), Some(oid), Some(id)) => {
                    acc.push(
                        AccessRole::OrganizationUnit(
                            OrganizationUnitId::Organization(
                                OrganizationResourceId { cid, oid, id },
                            ),
                        ),
                    );
                },
                (Some(cid), None, Some(id)) => {
                    acc.push(
                        AccessRole::OrganizationUnit(
                            OrganizationUnitId::Customer(CustomerResourceId { cid, id }),
                        ),
                    );
                },
                _ => (),
            }
        }
        i = i + 1;
    }
    proof {
        assert(orig.subrange(0, orig.len() as int) =~= orig);
    }
}

/// Append the organization roles found by scanning the collection.
fn scan_org_roles(docs: &Vec<Doc>, q: &Query, acc: &mut Vec<AccessRole>)
    ensures
        final(acc)@ == old(acc)@ + org_scan_roles(docs@, q@),
{
    let ghost orig = docs@;
    let ghost pre = old(acc)@;
    proof {
        assert(pre + org_scan_roles(orig.subrange(0, 0), q@) =~= pre);
    }
    let mut i: usize = 0;
    while i < docs.len()
        invariant
            i <= orig.len(),
            docs@ == orig,
            acc@ == pre + org_scan_roles(orig.subrange(0, i as int), q@),
        decreases orig.len() - i,
    {
        proof {
            assert(orig.subrange(0, i + 1).drop_last() =~= orig.subrange(0, i as int));
            assert(orig.subrange(0, i + 1).last() == orig[i as int]);
        }
        if q.matches(&docs[i].id) {
            let e = &docs[i].id;
            match (e.cid, e.id) {
                (Some(cid), Some(id)) => {
                    acc.push(AccessRole::Organization(CustomerResourceId { cid, id }));
                },
                _ => (),
            }
        }
        i = i + 1;
    }
    proof {
        assert(orig.subrange(0, orig.len() as int) =~= orig);
    }
}

/// Append the institution roles found by scanning the collection.
fn scan_inst_roles(docs: &Vec<Doc>, q: &Query, acc: &mut Vec<AccessRole>)
    ensures
        final(acc)@ == old(acc)@ + inst_scan_roles(docs@, q@),
{
    let ghost orig = docs@;
    let ghost pre = old(acc)@;
    proof {
        assert(pre + inst_scan_roles(orig.subrange(0, 0), q@) =~= pre);
    }
    let mut i: usize = 0;
    while i < docs.len()
        invariant
            i <= orig.len(),
            docs@ == orig,
            acc@ == pre + inst_scan_roles(orig.subrange(0, i as int), q@),
        decreases orig.len() - i,
    {
        proof {
            assert(orig.subrange(0, i + 1).drop_last() =~= orig.subrange(0, i as int));
            assert(orig.subrange(0, i + 1).last() == orig[i as int]);
        }
        if q.matches(&docs[i].id) {
            let e = &docs[i].id;
            match (e.cid, e.oid, e.id) {
                (Some(cid), Some(oid), Some(id)) => {
                    acc.push(
                        AccessRole::Institution(OrganizationResourceId { cid, oid, id }),
                    );
                },
                _ => (),
            }
        }
        i = i + 1;
    }
    proof {
        assert(orig.subrange(0, orig.len() as int) =~= orig);
    }
}

/// Revoke a computed role set: keep only entries outside it.
fn revoke_roles(roles: &Vec<AccessRole>, removed: &Vec<AccessRole>) -> (r: Vec<AccessRole>)
    ensures
        r@ == revoked(roles@, removed@),
{
    let ghost orig = roles@;
    let mut out: Vec<AccessRole> = Vec::new();
    let mut i: usize = 0;
    while i < roles.len()
        invariant
            i <= orig.len(),
            roles@ == orig,
            out@ == revoked(orig.subrange(0, i as int), removed@),
        decreases orig.len() - i,
    {
        proof {
            assert(orig.subrange(0, i + 1).drop_last() =~= orig.subrange(0, i as int));
            assert(orig.subrange(0, i + 1).last() == orig[i as int]);
        }
        if !contains_role(removed, &roles[i]) {
            out.push(roles[i]);
        }
        i = i + 1;
    }
    proof {
        assert(orig.subrange(0, orig.len() as int) =~= orig);
    }
    out
}

/// The atomic identifiers of a customer-deletion task.
pub open spec fn cid_values(cids: Seq<Cid>) -> Seq<ObjectId> {
    mapped(cids, |c: Cid| c.cid)
}

/// The customer ancestors of an organization-deletion task.
pub open spec fn org_cid_values(oids: Seq<StrictOrganizationId>) -> Seq<ObjectId> {
    mapped(oids, |o: StrictOrganizationId| o.cid_spec())
}

/// The organizations' own identifiers of an organization-deletion task.
pub open spec fn org_oid_values(oids: Seq<StrictOrganizationId>) -> Seq<ObjectId> {
    mapped(oids, |o: StrictOrganizationId| o.oid_spec())
}

/// The customer ancestors of an institution-deletion task.
pub open spec fn inst_cid_values(iids: Seq<StrictInstitutionId>) -> Seq<ObjectId> {
    mapped(iids, |i: StrictInstitutionId| i.cid_spec())
}

/// The organization ancestors of an institution-deletion task.
pub open spec fn inst_oid_values(iids: Seq<StrictInstitutionId>) -> Seq<ObjectId> {
    mapped(iids, |i: StrictInstitutionId| i.oid_spec())
}

/// The institutions' own identifiers of an institution-deletion task.
pub open spec fn inst_iid_values(iids: Seq<StrictInstitutionId>) -> Seq<ObjectId> {
    mapped(iids, |i: StrictInstitutionId| i.iid_spec())
}

/// The query of a customer deletion: dependents match on `cid` alone.
pub open spec fn customers_query(cids: Seq<Cid>) -> QueryView {
    QueryView { cids: cid_values(cids), oids: Seq::empty(), iids: Seq::empty() }
}

/// The query of an organization deletion: `cid` and `oid` containment.
pub open spec fn organizations_query(oids: Seq<StrictOrganizationId>) -> QueryView {
    QueryView { cids: org_cid_values(oids), oids: org_oid_values(oids), iids: Seq::empty() }
}

/// The query of an institution deletion: all three ancestor fields.
pub open spec fn institutions_query(iids: Seq<StrictInstitutionId>) -> QueryView {
    QueryView {
        cids: inst_cid_values(iids),
        oids: inst_oid_values(iids),
        iids: inst_iid_values(iids),
    }
}

/// The full role set a customer deletion revokes: one entry per deleted
/// customer and one per still-extant descendant at each level below.
pub open spec fn customers_roles(s: StoreView, cids: Seq<Cid>) -> Seq<AccessRole> {
    let q = customers_query(cids);
    customer_seed_roles(cids) + unit_scan_roles(s.organization_units, q) + org_scan_roles(
        s.organizations,
        q,
    ) + inst_scan_roles(s.institutions, q)
}

/// The full role set an organization deletion revokes.
pub open spec fn organizations_roles(s: StoreView, oids: Seq<StrictOrganizationId>) -> Seq<
    AccessRole,
> {
    let q = organizations_query(oids);
    org_seed_roles(oids) + unit_scan_roles(s.organization_units, q) + inst_scan_roles(
        s.institutions,
        q,
    )
}

/// Whether a user's owner chain names one of the deleted organization units;
/// the unit's own identifier travels in the owner's `iid` field, and the
/// match compares whichever ancestor fields the unit has.
pub open spec fn unit_user_hit(e: EntityId, uids: Seq<StrictOrganizationUnitId>) -> bool {
    exists|i: int|
        0 <= i < uids.len() && e.cid == Some(uids[i].cid_spec()) && e.oid == uids[i].oid_spec()
            && e.iid == Some(uids[i].uid_spec())
}

/// The user documents surviving an organization-unit deletion.
pub open spec fn swept_users_units(
    users: Seq<UserDoc>,
    uids: Seq<StrictOrganizationUnitId>,
) -> Seq<UserDoc> {
    filtered(users, |u: UserDoc| !unit_user_hit(user_entity(u), uids))
}

/// State after a customer-deletion run.
pub open spec fn cleanup_customers_spec(v: CleanupStateView, cids: Seq<Cid>) -> CleanupStateView {
    let q = customers_query(cids);
    let rm = customers_roles(v.store, cids);
    CleanupStateView {
        store: swept_store(v.store, q),
        roles: revoked(v.roles, rm),
        cached_roles: revoked(v.cached_roles, rm),
    }
}

/// State after an organization-deletion run: membership repair happens
/// before the sweep, so no Organization Unit membership ever dangles.
pub open spec fn cleanup_organizations_spec(
    v: CleanupStateView,
    oids: Seq<StrictOrganizationId>,
) -> CleanupStateView {
    let q = organizations_query(oids);
    let rm = organizations_roles(v.store, oids);
    let pulled = StoreView {
        organization_units: pulled_units_org(
            v.store.organization_units,
            org_cid_values(oids),
            org_oid_values(oids),
        ),
        ..v.store
    };
    CleanupStateView {
        store: swept_store(pulled, q),
        roles: revoked(v.roles, rm),
        cached_roles: revoked(v.cached_roles, rm),
    }
}

/// State after an institution-deletion run.
pub open spec fn cleanup_institutions_spec(
    v: CleanupStateView,
    iids: Seq<StrictInstitutionId>,
) -> CleanupStateView {
    let q = institutions_query(iids);
    let rm = inst_seed_roles(iids);
    let pulled = StoreView {
        organization_units: pulled_units_inst(v.store.organization_units, iids),
        ..v.store
    };
    CleanupStateView {
        store: swept_store(pulled, q),
        roles: revoked(v.roles, rm),
        cached_roles: revoked(v.cached_roles, rm),
    }
}

/// State after an organization-unit-deletion run: the unit documents were
/// already removed by the request handler, so only owned users and the
/// units' roles remain to clean.
pub open spec fn cleanup_organization_units_spec(
    v: CleanupStateView,
    uids: Seq<StrictOrganizationUnitId>,
) -> CleanupStateView {
    let rm = unit_seed_roles(uids);
    CleanupStateView {
        store: StoreView { users: swept_users_units(v.store.users, uids), ..v.store },
        roles: revoked(v.roles, rm),
        cached_roles: revoked(v.cached_roles, rm),
    }
}

/// A deletion event value.
pub open spec fn ev(ns: EventNs, col: CollectionKind, ids: Seq<EntityId>) -> DeleteEventView {
    DeleteEventView { ns, collection: col, ids }
}

/// Append an event only when its collection was touched.
pub open spec fn push_if(
    evs: Seq<DeleteEventView>,
    cond: bool,
    e: DeleteEventView,
) -> Seq<DeleteEventView> {
    if cond {
        evs.push(e)
    } else {
        evs
    }
}

/// The deleted customers as loose identifiers, for event payloads.
pub open spec fn customer_event_ids(cids: Seq<Cid>) -> Seq<EntityId> {
    mapped(cids, |c: Cid| EntityId { id: Some(c.cid), cid: None, oid: None, iid: None })
}

/// The deleted organizations as loose identifiers.
pub open spec fn org_event_ids(oids: Seq<StrictOrganizationId>) -> Seq<EntityId> {
    mapped(
        oids,
        |o: StrictOrganizationId| EntityId {
            id: Some(o.oid_spec()),
            cid: Some(o.cid_spec()),
            oid: None,
            iid: None,
        },
    )
}

/// The deleted institutions as loose identifiers.
pub open spec fn inst_event_ids(iids: Seq<StrictInstitutionId>) -> Seq<EntityId> {
    mapped(
        iids,
        |i: StrictInstitutionId| EntityId {
            id: Some(i.iid_spec()),
            cid: Some(i.cid_spec()),
            oid: Some(i.oid_spec()),
            iid: None,
        },
    )
}

/// The deleted organization units as loose identifiers.
pub open spec fn unit_event_ids(uids: Seq<StrictOrganizationUnitId>) -> Seq<EntityId> {
    mapped(
        uids,
        |u: StrictOrganizationUnitId| EntityId {
            id: Some(u.uid_spec()),
            cid: Some(u.cid_spec()),
            oid: u.oid_spec(),
            iid: None,
        },
    )
}

/// Events of a customer-deletion run: one for the deleted level, then one
/// per descendant collection the sweep touched.
pub open spec fn customers_events(
    pre: StoreView,
    post: StoreView,
    cids: Seq<Cid>,
) -> Seq<DeleteEventView> {
    let ids = customer_event_ids(cids);
    push_if(
        push_if(
            push_if(
                push_if(
                    seq![ev(EventNs::Customer, CollectionKind::Customers, ids)],
                    post.organizations.len() < pre.organizations.len(),
                    ev(EventNs::Organization, CollectionKind::Organizations, ids),
                ),
                post.institutions.len() < pre.institutions.len(),
                ev(EventNs::Institution, CollectionKind::Institutions, ids),
            ),
            post.organization_units.len() < pre.organization_units.len(),
            ev(EventNs::OrganizationUnit, CollectionKind::OrganizationUnits, ids),
        ),
        post.users.len() < pre.users.len(),
        ev(EventNs::User, CollectionKind::Users, ids),
    )
}

/// Events of an organization-deletion run.
pub open spec fn organizations_events(
    pre: StoreView,
    post: StoreView,
    oids: Seq<StrictOrganizationId>,
) -> Seq<DeleteEventView> {
    let ids = org_event_ids(oids);
    push_if(
        push_if(
            push_if(
                seq![ev(EventNs::Organization, CollectionKind::Organizations, ids)],
                post.institutions.len() < pre.institutions.len(),
                ev(EventNs::Institution, CollectionKind::Institutions, ids),
            ),
            post.organization_units.len() < pre.organization_units.len(),
            ev(EventNs::OrganizationUnit, CollectionKind::OrganizationUnits, ids),
        ),
        post.users.len() < pre.users.len(),
        ev(EventNs::User, CollectionKind::Users, ids),
    )
}

/// Events of an institution-deletion run.
pub open spec fn institutions_events(
    pre: StoreView,
    post: StoreView,
    iids: Seq<StrictInstitutionId>,
) -> Seq<DeleteEventView> {
    let ids = inst_event_ids(iids);
    push_if(
        seq![ev(EventNs::Institution, CollectionKind::Institutions, ids)],
        post.users.len() < pre.users.len(),
        ev(EventNs::User, CollectionKind::Users, ids),
    )
}

/// Events of an organization-unit-deletion run.
pub open spec fn organization_units_events(
    pre: StoreView,
    post: StoreView,
    uids: Seq<StrictOrganizationUnitId>,
) -> Seq<DeleteEventView> {
    let ids = unit_event_ids(uids);
    push_if(
        seq![ev(EventNs::OrganizationUnit, CollectionKind::OrganizationUnits, ids)],
        post.users.len() < pre.users.len(),
        ev(EventNs::User, CollectionKind::Users, ids),
    )
}

/// The deleted-customer id set of a task.
fn cid_value_vec(cids: &Vec<Cid>) -> (r: Vec<ObjectId>)
    ensures
        r@ == cid_values(cids@),
{
    let ghost orig = cids@;
    let mut out: Vec<ObjectId> = Vec::new();
    let mut i: usize = 0;
    while i < cids.len()
        invariant
            i <= orig.len(),
            cids@ == orig,
            out@ == cid_values(orig.subrange(0, i as int)),
        decreases orig.len() - i,
    {
        proof {
            assert(orig.subrange(0, i + 1).drop_last() =~= orig.subrange(0, i as int));
            assert(orig.subrange(0, i + 1).last() == orig[i as int]);
        }
        out.push(cids[i].as_id());
        i = i + 1;
    }
    proof {
        assert(orig.subrange(0, orig.len() as int) =~= orig);
    }
    out
}

/// Seed the revocation set with one entry per deleted customer.
fn push_customer_seed_roles(cids: &Vec<Cid>, acc: &mut Vec<AccessRole>)
    ensures
        final(acc)@ == old(acc)@ + customer_seed_roles(cids@),
{
    let ghost orig = cids@;
    let ghost pre = old(acc)@;
    proof {
        assert(pre + customer_seed_roles(orig.subrange(0, 0)) =~= pre);
    }
    let mut i: usize = 0;
    while i < cids.len()
        invariant
            i <= orig.len(),
            cids@ == orig,
            acc@ == pre + customer_seed_roles(orig.subrange(0, i as int)),
        decreases orig.len() - i,
    {
        proof {
            assert(orig.subrange(0, i + 1).drop_last() =~= orig.subrange(0, i as int));
            assert(orig.subrange(0, i + 1).last() == orig[i as int]);
        }
        acc.push(AccessRole::Customer(CustomerId { id: cids[i].as_id() }));
        i = i + 1;
    }
    proof {
        assert(orig.subrange(0, orig.len() as int) =~= orig);
    }
}

/// The deleted customers as event payload identifiers.
fn customer_event_id_vec(cids: &Vec<Cid>) -> (r: Vec<EntityId>)
    ensures
        r@ == customer_event_ids(cids@),
{
    let ghost orig = cids@;
    let mut out: Vec<EntityId> = Vec::new();
    let mut i: usize = 0;
    while i < cids.len()
        invariant
            i <= orig.len(),
            cids@ == orig,
            out@ == customer_event_ids(orig.subrange(0, i as int)),
        decreases orig.len() - i,
    {
        proof {
            assert(orig.subrange(0, i + 1).drop_last() =~= orig.subrange(0, i as int));
            assert(orig.subrange(0, i + 1).last() == orig[i as int]);
        }
        out.push(EntityId { id: Some(cids[i].as_id()), cid: None, oid: None, iid: None });
        i = i + 1;
    }
    proof {
        assert(orig.subrange(0, orig.len() as int) =~= orig);
    }
    out
}

/// One run of the cascade for a customer-deletion task.
///
/// The new state is exactly the swept store with the computed role set
/// revoked from both role sets; each read cache is asked to reload once,
/// and one event is published for the deleted level and for each descendant
/// collection the sweep touched.
pub fn cleanup_customers(state: &CleanupState, cids: &Vec<Cid>) -> (r: (CleanupState, RunEffects))
    ensures
        r.0@ == cleanup_customers_spec(state@, cids@),
        r.1.user_cache_reloads == 1,
        r.1.customer_cache_reloads == 1,
        events_view(r.1.events@) == customers_events(state@.store, r.0@.store, cids@),
{
    let q = Query { cids: cid_value_vec(cids), oids: Vec::new(), iids: Vec::new() };
    proof {
        assert(q@ == customers_query(cids@));
    }
    let mut rm: Vec<AccessRole> = Vec::new();
    push_customer_seed_roles(cids, &mut rm);
    scan_unit_roles(&state.store.organization_units, &q, &mut rm);
    scan_org_roles(&state.store.organizations, &q, &mut rm);
    scan_inst_roles(&state.store.institutions, &q, &mut rm);
    proof {
        assert(rm@ == customers_roles(state@.store, cids@));
    }
    let store = Store {
        customers: sweep_docs(&state.store.customers, &q),
        organizations: sweep_docs(&state.store.organizations, &q),
        institutions: sweep_docs(&state.store.institutions, &q),
        organization_units: sweep_units(&state.store.organization_units, &q),
        users: sweep_users(&state.store.users, &q),
        extras: sweep_extras(&state.store.extras, &q),
    };
    let roles = revoke_roles(&state.roles, &rm);
    let cached_roles = revoke_roles(&state.cached_roles, &rm);
    let mut events: Vec<DeleteEvent> = Vec::new();
    let first = DeleteEvent {
        ns: EventNs::Customer,
        collection: CollectionKind::Customers,
        ids: customer_event_id_vec(cids),
    };
    let ghost firstv = first@;
    events.push(first);
    proof {
        let s = events@;
        assert(s.drop_last() =~= Seq::<DeleteEvent>::empty());
        assert(events_view(s.drop_last()) =~= Seq::<DeleteEventView>::empty());
        assert(events_view(s) == events_view(s.drop_last()).push(s.last()@));
        assert(s.last()@ == firstv);
        assert(events_view(events@) =~= seq![
            ev(EventNs::Customer, CollectionKind::Customers, customer_event_ids(cids@)),
        ]);
    }
    let ghost ev1 = events_view(events@);
    if store.organizations.len() < state.store.organizations.len() {
        let ghost pre = events@;
        events.push(
            DeleteEvent {
                ns: EventNs::Organization,
                collection: CollectionKind::Organizations,
                ids: customer_event_id_vec(cids),
            },
        );
        proof {
            assert(pre.push(events@.last()).drop_last() =~= pre);
            assert(events_view(events@) == events_view(pre).push(events@.last()@));
        }
    }
    let ghost ev2 = events_view(events@);
    proof {
        assert(ev2 == push_if(
            ev1,
            store@.organizations.len() < state@.store.organizations.len(),
            ev(EventNs::Organization, CollectionKind::Organizations, customer_event_ids(cids@)),
        ));
    }
    if store.institutions.len() < state.store.institutions.len() {
        let ghost pre = events@;
        events.push(
            DeleteEvent {
                ns: EventNs::Institution,
                collection: CollectionKind::Institutions,
                ids: customer_event_id_vec(cids),
            },
        );
        proof {
            assert(pre.push(events@.last()).drop_last() =~= pre);
            assert(events_view(events@) == events_view(pre).push(events@.last()@));
        }
    }
    let ghost ev3 = events_view(events@);
    proof {
        assert(ev3 == push_if(
            ev2,
            store@.institutions.len() < state@.store.institutions.len(),
            ev(EventNs::Institution, CollectionKind::Institutions, customer_event_ids(cids@)),
        ));
    }
    if store.organization_units.len() < state.store.organization_units.len() {
        let ghost pre = events@;
        events.push(
            DeleteEvent {
                ns: EventNs::OrganizationUnit,
                collection: CollectionKind::OrganizationUnits,
                ids: customer_event_id_vec(cids),
            },
        );
        proof {
            assert(pre.push(events@.last()).drop_last() =~= pre);
            assert(events_view(events@) == events_view(pre).push(events@.last()@));
        }
    }
    let ghost ev4 = events_view(events@);
    proof {
        crate::seqs::lemma_mapped_index(state.store.organization_units@,
            |u: OrganizationUnitDoc| u@);
        crate::seqs::lemma_mapped_index(store.organization_units@,
            |u: OrganizationUnitDoc| u@);
        assert(ev4 == push_if(
            ev3,
            store@.organization_units.len() < state@.store.organization_units.len(),
            ev(
                EventNs::OrganizationUnit,
                CollectionKind::OrganizationUnits,
                customer_event_ids(cids@),
            ),
        ));
    }
    if store.users.len() < state.store.users.len() {
        let ghost pre = events@;
        events.push(
            DeleteEvent {
                ns: EventNs::User,
                collection: CollectionKind::Users,
                ids: customer_event_id_vec(cids),
            },
        );
        proof {
            assert(pre.push(events@.last()).drop_last() =~= pre);
            assert(events_view(events@) == events_view(pre).push(events@.last()@));
        }
    }
    proof {
        assert(events_view(events@) == push_if(
            ev4,
            store@.users.len() < state@.store.users.len(),
            ev(EventNs::User, CollectionKind::Users, customer_event_ids(cids@)),
        ));
    }
    let out = CleanupState { store, roles, cached_roles };
    let effects = RunEffects { user_cache_reloads: 1, customer_cache_reloads: 1, events };
    (out, effects)
}

/// The customer ancestors of the deleted organizations.
fn org_cid_value_vec(oids: &Vec<StrictOrganizationId>) -> (r: Vec<ObjectId>)
    ensures
        r@ == org_cid_values(oids@),
{
    let ghost orig = oids@;
    let mut out: Vec<ObjectId> = Vec::new();
    let mut i: usize = 0;
    while i < oids.len()
        invariant
            i <= orig.len(),
            oids@ == orig,
            out@ == org_cid_values(orig.subrange(0, i as int)),
        decreases orig.len() - i,
    {
        proof {
            assert(orig.subrange(0, i + 1).drop_last() =~= orig.subrange(0, i as int));
            assert(orig.subrange(0, i + 1).last() == orig[i as int]);
        }
        out.push(oids[i].as_cid().as_id());
        i = i + 1;
    }
    proof {
        assert(orig.subrange(0, orig.len() as int) =~= orig);
    }
    out
}

/// The deleted organizations' own identifiers.
fn org_oid_value_vec(oids: &Vec<StrictOrganizationId>) -> (r: Vec<ObjectId>)
    ensures
        r@ == org_oid_values(oids@),
{
    let ghost orig = oids@;
    let mut out: Vec<ObjectId> = Vec::new();
    let mut i: usize = 0;
    while i < oids.len()
        invariant
            i <= orig.len(),
            oids@ == orig,
            out@ == org_oid_values(orig.subrange(0, i as int)),
        decreases orig.len() - i,
    {
        proof {
            assert(orig.subrange(0, i + 1).drop_last() =~= orig.subrange(0, i as int));
            assert(orig.subrange(0, i + 1).last() == orig[i as int]);
        }
        out.push(oids[i].as_oid().as_id());
        i = i + 1;
    }
    proof {
        assert(orig.subrange(0, orig.len() as int) =~= orig);
    }
    out
}

/// Seed the revocation set with one entry per deleted organization.
fn push_org_seed_roles(oids: &Vec<StrictOrganizationId>, acc: &mut Vec<AccessRole>)
    ensures
        final(acc)@ == old(acc)@ + org_seed_roles(oids@),
{
    let ghost orig = oids@;
    let ghost pre = old(acc)@;
    proof {
        assert(pre + org_seed_roles(orig.subrange(0, 0)) =~= pre);
    }
    let mut i: usize = 0;
    while i < oids.len()
        invariant
            i <= orig.len(),
            oids@ == orig,
            acc@ == pre + org_seed_roles(orig.subrange(0, i as int)),
        decreases orig.len() - i,
    {
        proof {
            assert(orig.subrange(0, i + 1).drop_last() =~= orig.subrange(0, i as int));
            assert(orig.subrange(0, i + 1).last() == orig[i as int]);
        }
        acc.push(
            AccessRole::Organization(
                CustomerResourceId { cid: oids[i].as_cid().as_id(), id: oids[i].as_oid().as_id() },
            ),
        );
        i = i + 1;
    }
    proof {
        assert(orig.subrange(0, orig.len() as int) =~= orig);
    }
}

/// The deleted organizations as event payload identifiers.
fn org_event_id_vec(oids: &Vec<StrictOrganizationId>) -> (r: Vec<EntityId>)
    ensures
        r@ == org_event_ids(oids@),
{
    let ghost orig = oids@;
    let mut out: Vec<EntityId> = Vec::new();
    let mut i: usize = 0;
    while i < oids.len()
        invariant
            i <= orig.len(),
            oids@ == orig,
            out@ == org_event_ids(orig.subrange(0, i as int)),
        decreases orig.len() - i,
    {
        proof {
            assert(orig.subrange(0, i + 1).drop_last() =~= orig.subrange(0, i as int));
            assert(orig.subrange(0, i + 1).last() == orig[i as int]);
        }
        out.push(
            EntityId {
                id: Some(oids[i].as_oid().as_id()),
                cid: Some(oids[i].as_cid().as_id()),
                oid: None,
                iid: None,
            },
        );
        i = i + 1;
    }
    proof {
        assert(orig.subrange(0, orig.len() as int) =~= orig);
    }
    out
}

/// One run of the cascade for an organization-deletion task.
///
/// Membership repair precedes the sweep; the computed role set holds the
/// deleted organizations' entries and one entry per still-extant
/// organization unit and institution under them.
pub fn cleanup_organizations(
    state: &CleanupState,
    oids: &Vec<StrictOrganizationId>,
) -> (r: (CleanupState, RunEffects))
    ensures
        r.0@ == cleanup_organizations_spec(state@, oids@),
        r.1.user_cache_reloads == 1,
        r.1.customer_cache_reloads == 1,
        events_view(r.1.events@) == organizations_events(state@.store, r.0@.store, oids@),
{
    let qc = org_cid_value_vec(oids);
    let qo = org_oid_value_vec(oids);
    let pulled_units = pull_units_org(&state.store.organization_units, &qc, &qo);
    let q = Query { cids: qc, oids: qo, iids: Vec::new() };
    proof {
        assert(q@ == organizations_query(oids@));
    }
    let mut rm: Vec<AccessRole> = Vec::new();
    push_org_seed_roles(oids, &mut rm);
    scan_unit_roles(&state.store.organization_units, &q, &mut rm);
    scan_inst_roles(&state.store.institutions, &q, &mut rm);
    proof {
        assert(rm@ == organizations_roles(state@.store, oids@));
    }
    let store = Store {
        customers: sweep_docs(&state.store.customers, &q),
        organizations: sweep_docs(&state.store.organizations, &q),
        institutions: sweep_docs(&state.store.institutions, &q),
        organization_units: sweep_units(&pulled_units, &q),
        users: sweep_users(&state.store.users, &q),
        extras: sweep_extras(&state.store.extras, &q),
    };
    let roles = revoke_roles(&state.roles, &rm);
    let cached_roles = revoke_roles(&state.cached_roles, &rm);
    let mut events: Vec<DeleteEvent> = Vec::new();
    let first = DeleteEvent {
        ns: EventNs::Organization,
        collection: CollectionKind::Organizations,
        ids: org_event_id_vec(oids),
    };
    events.push(first);
    proof {
        let s = events@;
        assert(s.drop_last() =~= Seq::<DeleteEvent>::empty());
        assert(events_view(s.drop_last()) =~= Seq::<DeleteEventView>::empty());
        assert(events_view(s) == events_view(s.drop_last()).push(s.last()@));
        assert(events_view(events@) =~= seq![
            ev(EventNs::Organization, CollectionKind::Organizations, org_event_ids(oids@)),
        ]);
    }
    let ghost ev1 = events_view(events@);
    if store.institutions.len() < state.store.institutions.len() {
        let ghost pre = events@;
        events.push(
            DeleteEvent {
                ns: EventNs::Institution,
                collection: CollectionKind::Institutions,
                ids: org_event_id_vec(oids),
            },
        );
        proof {
            assert(pre.push(events@.last()).drop_last() =~= pre);
            assert(events_view(events@) == events_view(pre).push(events@.last()@));
        }
    }
    let ghost ev2 = events_view(events@);
    proof {
        assert(ev2 == push_if(
            ev1,
            store@.institutions.len() < state@.store.institutions.len(),
            ev(EventNs::Institution, CollectionKind::Institutions, org_event_ids(oids@)),
        ));
    }
    if store.organization_units.len() < state.store.organization_units.len() {
        let ghost pre = events@;
        events.push(
            DeleteEvent {
                ns: EventNs::OrganizationUnit,
                collection: CollectionKind::OrganizationUnits,
                ids: org_event_id_vec(oids),
            },
        );
        proof {
            assert(pre.push(events@.last()).drop_last() =~= pre);
            assert(events_view(events@) == events_view(pre).push(events@.last()@));
        }
    }
    let ghost ev3 = events_view(events@);
    proof {
        crate::seqs::lemma_mapped_index(state.store.organization_units@,
            |u: OrganizationUnitDoc| u@);
        crate::seqs::lemma_mapped_index(store.organization_units@,
            |u: OrganizationUnitDoc| u@);
        crate::seqs::lemma_mapped_index(pulled_units@, |u: OrganizationUnitDoc| u@);
        assert(state@.store.organization_units.len() == state.store.organization_units@.len());
        assert(store@.organization_units.len() == store.organization_units@.len());
        assert(ev3 == push_if(
            ev2,
            store@.organization_units.len() < state@.store.organization_units.len(),
            ev(
                EventNs::OrganizationUnit,
                CollectionKind::OrganizationUnits,
                org_event_ids(oids@),
            ),
        ));
    }
    if store.users.len() < state.store.users.len() {
        let ghost pre = events@;
        events.push(
            DeleteEvent {
                ns: EventNs::User,
                collection: CollectionKind::Users,
                ids: org_event_id_vec(oids),
            },
        );
        proof {
            assert(pre.push(events@.last()).drop_last() =~= pre);
            assert(events_view(events@) == events_view(pre).push(events@.last()@));
        }
    }
    proof {
        assert(events_view(events@) == push_if(
            ev3,
            store@.users.len() < state@.store.users.len(),
            ev(EventNs::User, CollectionKind::Users, org_event_ids(oids@)),
        ));
    }
    let out = CleanupState { store, roles, cached_roles };
    let effects = RunEffects { user_cache_reloads: 1, customer_cache_reloads: 1, events };
    (out, effects)
}

/// The customer ancestors of the deleted institutions.
fn inst_cid_value_vec(iids: &Vec<StrictInstitutionId>) -> (r: Vec<ObjectId>)
    ensures
        r@ == inst_cid_values(iids@),
{
    let ghost orig = iids@;
    let mut out: Vec<ObjectId> = Vec::new();
    let mut i: usize = 0;
    while i < iids.len()
        invariant
            i <= orig.len(),
            iids@ == orig,
            out@ == inst_cid_values(orig.subrange(0, i as int)),
        decreases orig.len() - i,
    {
        proof {
            assert(orig.subrange(0, i + 1).drop_last() =~= orig.subrange(0, i as int));
            assert(orig.subrange(0, i + 1).last() == orig[i as int]);
        }
        out.push(iids[i].as_cid().as_id());
        i = i + 1;
    }
    proof {
        assert(orig.subrange(0, orig.len() as int) =~= orig);
    }
    out
}

/// The organization ancestors of the deleted institutions.
fn inst_oid_value_vec(iids: &Vec<StrictInstitutionId>) -> (r: Vec<ObjectId>)
    ensures
        r@ == inst_oid_values(iids@),
{
    let ghost orig = iids@;
    let mut out: Vec<ObjectId> = Vec::new();
    let mut i: usize = 0;
    while i < iids.len()
        invariant
            i <= orig.len(),
            iids@ == orig,
            out@ == inst_oid_values(orig.subrange(0, i as int)),
        decreases orig.len() - i,
    {
        proof {
            assert(orig.subrange(0, i + 1).drop_last() =~= orig.subrange(0, i as int));
            assert(orig.subrange(0, i + 1).last() == orig[i as int]);
        }
        out.push(iids[i].as_oid().as_id());
        i = i + 1;
    }
    proof {
        assert(orig.subrange(0, orig.len() as int) =~= orig);
    }
    out
}

/// The deleted institutions' own identifiers.
fn inst_iid_value_vec(iids: &Vec<StrictInstitutionId>) -> (r: Vec<ObjectId>)
    ensures
        r@ == inst_iid_values(iids@),
{
    let ghost orig = iids@;
    let mut out: Vec<ObjectId> = Vec::new();
    let mut i: usize = 0;
    while i < iids.len()
        invariant
            i <= orig.len(),
            iids@ == orig,
            out@ == inst_iid_values(orig.subrange(0, i as int)),
        decreases orig.len() - i,
    {
        proof {
            assert(orig.subrange(0, i + 1).drop_last() =~= orig.subrange(0, i as int));
            assert(orig.subrange(0, i + 1).last() == orig[i as int]);
        }
        out.push(iids[i].as_iid().as_id());
        i = i + 1;
    }
    proof {
        assert(orig.subrange(0, orig.len() as int) =~= orig);
    }
    out
}

/// Seed the revocation set with one entry per deleted institution.
fn push_inst_seed_roles(iids: &Vec<StrictInstitutionId>, acc: &mut Vec<AccessRole>)
    ensures
        final(acc)@ == old(acc)@ + inst_seed_roles(iids@),
{
    let ghost orig = iids@;
    let ghost pre = old(acc)@;
    proof {
        assert(pre + inst_seed_roles(orig.subrange(0, 0)) =~= pre);
    }
    let mut i: usize = 0;
    while i < iids.len()
        invariant
            i <= orig.len(),
            iids@ == orig,
            acc@ == pre + inst_seed_roles(orig.subrange(0, i as int)),
        decreases orig.len() - i,
    {
        proof {
            assert(orig.subrange(0, i + 1).drop_last() =~= orig.subrange(0, i as int));
            assert(orig.subrange(0, i + 1).last() == orig[i as int]);
        }
        acc.push(
            AccessRole::Institution(
                OrganizationResourceId {
                    cid: iids[i].as_cid().as_id(),
                    oid: iids[i].as_oid().as_id(),
                    id: iids[i].as_iid().as_id(),
                },
            ),
        );
        i = i + 1;
    }
    proof {
        assert(orig.subrange(0, orig.len() as int) =~= orig);
    }
}

/// The deleted institutions as event payload identifiers.
fn inst_event_id_vec(iids: &Vec<StrictInstitutionId>) -> (r: Vec<EntityId>)
    ensures
        r@ == inst_event_ids(iids@),
{
    let ghost orig = iids@;
    let mut out: Vec<EntityId> = Vec::new();
    let mut i: usize = 0;
    while i < iids.len()
        invariant
            i <= orig.len(),
            iids@ == orig,
            out@ == inst_event_ids(orig.subrange(0, i as int)),
        decreases orig.len() - i,
    {
        proof {
            assert(orig.subrange(0, i + 1).drop_last() =~= orig.subrange(0, i as int));
            assert(orig.subrange(0, i + 1).last() == orig[i as int]);
        }
        out.push(
            EntityId {
                id: Some(iids[i].as_iid().as_id()),
                cid: Some(iids[i].as_cid().as_id()),
                oid: Some(iids[i].as_oid().as_id()),
                iid: None,
            },
        );
        i = i + 1;
    }
    proof {
        assert(orig.subrange(0, orig.len() as int) =~= orig);
    }
    out
}

/// One run of the cascade for an institution-deletion task.
pub fn cleanup_institutions(
    state: &CleanupState,
    iids: &Vec<StrictInstitutionId>,
) -> (r: (CleanupState, RunEffects))
    ensures
        r.0@ == cleanup_institutions_spec(state@, iids@),
        r.1.user_cache_reloads == 1,
        r.1.customer_cache_reloads == 1,
        events_view(r.1.events@) == institutions_events(state@.store, r.0@.store, iids@),
{
    let pulled_units = pull_units_inst(&state.store.organization_units, iids);
    let q = Query {
        cids: inst_cid_value_vec(iids),
        oids: inst_oid_value_vec(iids),
        iids: inst_iid_value_vec(iids),
    };
    proof {
        assert(q@ == institutions_query(iids@));
    }
    let mut rm: Vec<AccessRole> = Vec::new();
    push_inst_seed_roles(iids, &mut rm);
    proof {
        assert(rm@ =~= inst_seed_roles(iids@));
    }
    let store = Store {
        customers: sweep_docs(&state.store.customers, &q),
        organizations: sweep_docs(&state.store.organizations, &q),
        institutions: sweep_docs(&state.store.institutions, &q),
        organization_units: sweep_units(&pulled_units, &q),
        users: sweep_users(&state.store.users, &q),
        extras: sweep_extras(&state.store.extras, &q),
    };
    let roles = revoke_roles(&state.roles, &rm);
    let cached_roles = revoke_roles(&state.cached_roles, &rm);
    let mut events: Vec<DeleteEvent> = Vec::new();
    let first = DeleteEvent {
        ns: EventNs::Institution,
        collection: CollectionKind::Institutions,
        ids: inst_event_id_vec(iids),
    };
    events.push(first);
    proof {
        let s = events@;
        assert(s.drop_last() =~= Seq::<DeleteEvent>::empty());
        assert(events_view(s.drop_last()) =~= Seq::<DeleteEventView>::empty());
        assert(events_view(s) == events_view(s.drop_last()).push(s.last()@));
        assert(events_view(events@) =~= seq![
            ev(EventNs::Institution, CollectionKind::Institutions, inst_event_ids(iids@)),
        ]);
    }
    let ghost ev1 = events_view(events@);
    if store.users.len() < state.store.users.len() {
        let ghost pre = events@;
        events.push(
            DeleteEvent {
                ns: EventNs::User,
                collection: CollectionKind::Users,
                ids: inst_event_id_vec(iids),
            },
        );
        proof {
            assert(pre.push(events@.last()).drop_last() =~= pre);
            assert(events_view(events@) == events_view(pre).push(events@.last()@));
        }
    }
    proof {
        assert(events_view(events@) == push_if(
            ev1,
            store@.users.len() < state@.store.users.len(),
            ev(EventNs::User, CollectionKind::Users, inst_event_ids(iids@)),
        ));
    }
    let out = CleanupState { store, roles, cached_roles };
    let effects = RunEffects { user_cache_reloads: 1, customer_cache_reloads: 1, events };
    (out, effects)
}

/// Seed the revocation set with one entry per deleted organization unit.
fn push_unit_seed_roles(uids: &Vec<StrictOrganizationUnitId>, acc: &mut Vec<AccessRole>)
    ensures
        final(acc)@ == old(acc)@ + unit_seed_roles(uids@),
{
    let ghost orig = uids@;
    let ghost pre = old(acc)@;
    proof {
        assert(pre + unit_seed_roles(orig.subrange(0, 0)) =~= pre);
    }
    let mut i: usize = 0;
    while i < uids.len()
        invariant
            i <= orig.len(),
            uids@ == orig,
            acc@ == pre + unit_seed_roles(orig.subrange(0, i as int)),
        decreases orig.len() - i,
    {
        proof {
            assert(orig.subrange(0, i + 1).drop_last() =~= orig.subrange(0, i as int));
            assert(orig.subrange(0, i + 1).last() == orig[i as int]);
        }
        let role = match uids[i].as_oid() {
            Some(oid) => AccessRole::OrganizationUnit(
                OrganizationUnitId::Organization(
                    OrganizationResourceId {
                        cid: uids[i].as_cid().as_id(),
                        oid: oid.as_id(),
                        id: uids[i].as_uid().as_id(),
                    },
                ),
            ),
            None => AccessRole::OrganizationUnit(
                OrganizationUnitId::Customer(
                    CustomerResourceId {
                        cid: uids[i].as_cid().as_id(),
                        id: uids[i].as_uid().as_id(),
                    },
                ),
            ),
        };
        acc.push(role);
        i = i + 1;
    }
    proof {
        assert(orig.subrange(0, orig.len() as int) =~= orig);
    }
}

/// The deleted organization units as event payload identifiers.
fn unit_event_id_vec(uids: &Vec<StrictOrganizationUnitId>) -> (r: Vec<EntityId>)
    ensures
        r@ == unit_event_ids(uids@),
{
    let ghost orig = uids@;
    let mut out: Vec<EntityId> = Vec::new();
    let mut i: usize = 0;
    while i < uids.len()
        invariant
            i <= orig.len(),
            uids@ == orig,
            out@ == unit_event_ids(orig.subrange(0, i as int)),
        decreases orig.len() - i,
    {
        proof {
            assert(orig.subrange(0, i + 1).drop_last() =~= orig.subrange(0, i as int));
            assert(orig.subrange(0, i + 1).last() == orig[i as int]);
        }
        let oid = match uids[i].as_oid() {
            Some(o) => Some(o.as_id()),
            None => None,
        };
        out.push(
            EntityId {
                id: Some(uids[i].as_uid().as_id()),
                cid: Some(uids[i].as_cid().as_id()),
                oid,
                iid: None,
            },
        );
        i = i + 1;
    }
    proof {
        assert(orig.subrange(0, orig.len() as int) =~= orig);
    }
    out
}

/// Whether a user's owner chain names one of the deleted units.
fn unit_user_matches(e: &EntityId, uids: &Vec<StrictOrganizationUnitId>) -> (r: bool)
    ensures
        r == unit_user_hit(*e, uids@),
{
    let mut i: usize = 0;
    while i < uids.len()
        invariant
            i <= uids@.len(),
            forall|j: int|
                0 <= j < i ==> !(e.cid == Some(uids@[j].cid_spec()) && #[trigger] uids@[j].oid_spec()
                    == e.oid && e.iid == Some(uids@[j].uid_spec())),
        decreases uids@.len() - i,
    {
        let cid_ok = match e.cid {
            Some(c) => c == uids[i].as_cid().as_id(),
            None => false,
        };
        let oid_ok = match (e.oid, uids[i].as_oid()) {
            (Some(a), Some(b)) => a == b.as_id(),
            (None, None) => true,
            _ => false,
        };
        let iid_ok = match e.iid {
            Some(c) => c == uids[i].as_uid().as_id(),
            None => false,
        };
        if cid_ok && oid_ok && iid_ok {
            return true;
        }
        i = i + 1;
    }
    false
}

/// Sweep the users collection by deleted-unit ownership.
fn sweep_users_by_units(
    users: &Vec<UserDoc>,
    uids: &Vec<StrictOrganizationUnitId>,
) -> (r: Vec<UserDoc>)
    ensures
        r@ == swept_users_units(users@, uids@),
{
    let ghost orig = users@;
    let mut out: Vec<UserDoc> = Vec::new();
    let mut i: usize = 0;
    while i < users.len()
        invariant
            i <= orig.len(),
            users@ == orig,
            out@ == swept_users_units(orig.subrange(0, i as int), uids@),
        decreases orig.len() - i,
    {
        proof {
            assert(orig.subrange(0, i + 1).drop_last() =~= orig.subrange(0, i as int));
            assert(orig.subrange(0, i + 1).last() == orig[i as int]);
        }
        if !unit_user_matches(users[i].owner.entity_id(), uids) {
            out.push(users[i]);
        }
        i = i + 1;
    }
    proof {
        assert(orig.subrange(0, orig.len() as int) =~= orig);
    }
    out
}

/// Copy an ancestor-tagged collection unchanged.
fn copy_docs(docs: &Vec<Doc>) -> (r: Vec<Doc>)
    ensures
        r@ == docs@,
{
    let mut out: Vec<Doc> = Vec::new();
    let mut i: usize = 0;
    while i < docs.len()
        invariant
            i <= docs@.len(),
            out@ == docs@.subrange(0, i as int),
        decreases docs@.len() - i,
    {
        out.push(docs[i]);
        i = i + 1;
    }
    proof {
        assert(docs@.subrange(0, docs@.len() as int) =~= docs@);
    }
    out
}

/// Copy the organization-units collection unchanged.
fn copy_units(units: &Vec<OrganizationUnitDoc>) -> (r: Vec<OrganizationUnitDoc>)
    ensures
        units_view(r@) == units_view(units@),
        r@.len() == units@.len(),
{
    let ghost orig = units_view(units@);
    proof {
        crate::seqs::lemma_mapped_index(units@, |u: OrganizationUnitDoc| u@);
    }
    let mut out: Vec<OrganizationUnitDoc> = Vec::new();
    let mut i: usize = 0;
    while i < units.len()
        invariant
            i <= units@.len(),
            orig == units_view(units@),
            orig.len() == units@.len(),
            forall|j: int| 0 <= j < units@.len() ==> #[trigger] orig[j] == units@[j]@,
            out@.len() == i,
            units_view(out@) == orig.subrange(0, i as int),
        decreases units@.len() - i,
    {
        proof {
            assert(orig.subrange(0, i + 1).drop_last() =~= orig.subrange(0, i as int));
            assert(orig.subrange(0, i + 1).last() == orig[i as int]);
        }
        let ghost pre = out@;
        let copied = OrganizationUnitDoc {
            id: units[i].id,
            members: copy_members(&units[i].members),
        };
        proof {
            assert(copied@ == units@[i as int]@);
        }
        out.push(copied);
        proof {
            assert(pre.push(copied).drop_last() =~= pre);
            assert(units_view(out@) == units_view(pre).push(copied@));
            assert(units_view(out@) =~= orig.subrange(0, i + 1));
        }
        i = i + 1;
    }
    proof {
        assert(orig.subrange(0, orig.len() as int) =~= orig);
    }
    out
}

/// Copy the extra collections unchanged.
fn copy_extras(extras: &Vec<ExtraCollection>) -> (r: Vec<ExtraCollection>)
    ensures
        extras_view(r@) == extras_view(extras@),
{
    let ghost orig = extras_view(extras@);
    proof {
        crate::seqs::lemma_mapped_index(extras@, |c: ExtraCollection| c@);
    }
    let mut out: Vec<ExtraCollection> = Vec::new();
    let mut i: usize = 0;
    while i < extras.len()
        invariant
            i <= extras@.len(),
            orig == extras_view(extras@),
            orig.len() == extras@.len(),
            forall|j: int| 0 <= j < extras@.len() ==> #[trigger] orig[j] == extras@[j]@,
            extras_view(out@) == orig.subrange(0, i as int),
        decreases extras@.len() - i,
    {
        proof {
            assert(orig.subrange(0, i + 1).drop_last() =~= orig.subrange(0, i as int));
            assert(orig.subrange(0, i + 1).last() == orig[i as int]);
        }
        let ghost pre = out@;
        let copied = ExtraCollection {
            name: extras[i].name.clone(),
            docs: copy_docs(&extras[i].docs),
        };
        proof {
            assert(copied@ == extras@[i as int]@);
        }
        out.push(copied);
        proof {
            assert(pre.push(copied).drop_last() =~= pre);
            assert(extras_view(out@) == extras_view(pre).push(copied@));
            assert(extras_view(out@) =~= orig.subrange(0, i + 1));
        }
        i = i + 1;
    }
    proof {
        assert(orig.subrange(0, orig.len() as int) =~= orig);
    }
    out
}

/// Copy the users collection unchanged.
fn copy_users(users: &Vec<UserDoc>) -> (r: Vec<UserDoc>)
    ensures
        r@ == users@,
{
    let mut out: Vec<UserDoc> = Vec::new();
    let mut i: usize = 0;
    while i < users.len()
        invariant
            i <= users@.len(),
            out@ == users@.subrange(0, i as int),
        decreases users@.len() - i,
    {
        out.push(users[i]);
        i = i + 1;
    }
    proof {
        assert(users@.subrange(0, users@.len() as int) =~= users@);
    }
    out
}

/// Copy a role set unchanged.
fn copy_roles(roles: &Vec<AccessRole>) -> (r: Vec<AccessRole>)
    ensures
        r@ == roles@,
{
    let mut out: Vec<AccessRole> = Vec::new();
    let mut i: usize = 0;
    while i < roles.len()
        invariant
            i <= roles@.len(),
            out@ == roles@.subrange(0, i as int),
        decreases roles@.len() - i,
    {
        out.push(roles[i]);
        i = i + 1;
    }
    proof {
        assert(roles@.subrange(0, roles@.len() as int) =~= roles@);
    }
    out
}

/// Copy the whole session state unchanged, as a no-operation run leaves it.
pub fn copy_state(state: &CleanupState) -> (r: CleanupState)
    ensures
        r@ == state@,
{
    CleanupState {
        store: Store {
            customers: copy_docs(&state.store.customers),
            organizations: copy_docs(&state.store.organizations),
            institutions: copy_docs(&state.store.institutions),
            organization_units: copy_units(&state.store.organization_units),
            users: copy_users(&state.store.users),
            extras: copy_extras(&state.store.extras),
        },
        roles: copy_roles(&state.roles),
        cached_roles: copy_roles(&state.cached_roles),
    }
}

/// One run of the cascade for an organization-unit-deletion task.
///
/// The unit documents themselves were removed by the request handler, so
/// the run revokes the units' roles and removes the users they owned,
/// matching whichever ancestor fields each unit has.
pub fn cleanup_organization_units(
    state: &CleanupState,
    uids: &Vec<StrictOrganizationUnitId>,
) -> (r: (CleanupState, RunEffects))
    ensures
        r.0@ == cleanup_organization_units_spec(state@, uids@),
        r.1.user_cache_reloads == 1,
        r.1.customer_cache_reloads == 1,
        events_view(r.1.events@) == organization_units_events(state@.store, r.0@.store, uids@),
{
    let mut rm: Vec<AccessRole> = Vec::new();
    push_unit_seed_roles(uids, &mut rm);
    proof {
        assert(rm@ =~= unit_seed_roles(uids@));
    }
    let store = Store {
        customers: copy_docs(&state.store.customers),
        organizations: copy_docs(&state.store.organizations),
        institutions: copy_docs(&state.store.institutions),
        organization_units: copy_units(&state.store.organization_units),
        users: sweep_users_by_units(&state.store.users, uids),
        extras: copy_extras(&state.store.extras),
    };
    let roles = revoke_roles(&state.roles, &rm);
    let cached_roles = revoke_roles(&state.cached_roles, &rm);
    let mut events: Vec<DeleteEvent> = Vec::new();
    let first = DeleteEvent {
        ns: EventNs::OrganizationUnit,
        collection: CollectionKind::OrganizationUnits,
        ids: unit_event_id_vec(uids),
    };
    events.push(first);
    proof {
        let s = events@;
        assert(s.drop_last() =~= Seq::<DeleteEvent>::empty());
        assert(events_view(s.drop_last()) =~= Seq::<DeleteEventView>::empty());
        assert(events_view(s) == events_view(s.drop_last()).push(s.last()@));
        assert(events_view(events@) =~= seq![
            ev(
                EventNs::OrganizationUnit,
                CollectionKind::OrganizationUnits,
                unit_event_ids(uids@),
            ),
        ]);
    }
    let ghost ev1 = events_view(events@);
    if store.users.len() < state.store.users.len() {
        let ghost pre = events@;
        events.push(
            DeleteEvent {
                ns: EventNs::User,
                collection: CollectionKind::Users,
                ids: unit_event_id_vec(uids),
            },
        );
        proof {
            assert(pre.push(events@.last()).drop_last() =~= pre);
            assert(events_view(events@) == events_view(pre).push(events@.last()@));
        }
    }
    proof {
        assert(events_view(events@) == push_if(
            ev1,
            store@.users.len() < state@.store.users.len(),
            ev(EventNs::User, CollectionKind::Users, unit_event_ids(uids@)),
        ));
    }
    let out = CleanupState { store, roles, cached_roles };
    let effects = RunEffects { user_cache_reloads: 1, customer_cache_reloads: 1, events };
    (out, effects)
}

} // verus!
