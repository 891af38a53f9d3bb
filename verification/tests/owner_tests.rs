use qm_customer::ids::{CustomerId, CustomerResourceId, EntityId, ObjectId, OrganizationResourceId, OrganizationUnitId};
use qm_customer::owner::Owner;

fn oid(v: u128) -> ObjectId {
    ObjectId { value: v }
}

#[test]
fn customer_projection_never_fabricates() {
    let o = Owner::Customer(EntityId { id: Some(oid(1)), cid: None, oid: None, iid: None });
    assert_eq!(o.customer(), None);

    let o = Owner::Customer(EntityId { id: Some(oid(1)), cid: Some(oid(2)), oid: None, iid: None });
    assert_eq!(o.customer(), Some(CustomerId { id: oid(2) }));
}

#[test]
fn institution_owner_projects_to_its_organization() {
    let o = Owner::Institution(EntityId {
        id: Some(oid(9)),
        cid: Some(oid(1)),
        oid: Some(oid(2)),
        iid: Some(oid(3)),
    });
    assert_eq!(
        o.organization(),
        Some(CustomerResourceId { cid: oid(1), id: oid(2) })
    );
    assert_eq!(
        o.institution(),
        Some(OrganizationResourceId { cid: oid(1), oid: oid(2), id: oid(3) })
    );
}

#[test]
fn organization_projection_needs_both_fields() {
    let o = Owner::Organization(EntityId { id: Some(oid(9)), cid: Some(oid(1)), oid: None, iid: None });
    assert_eq!(o.organization(), None);
}

#[test]
fn organization_unit_projection_follows_the_root_variant() {
    let rooted_at_customer = Owner::OrganizationUnit(EntityId {
        id: Some(oid(9)),
        cid: Some(oid(1)),
        oid: None,
        iid: Some(oid(5)),
    });
    assert_eq!(
        rooted_at_customer.organization_unit(),
        Some(OrganizationUnitId::Customer(CustomerResourceId { cid: oid(1), id: oid(5) }))
    );

    let rooted_at_org = Owner::OrganizationUnit(EntityId {
        id: Some(oid(9)),
        cid: Some(oid(1)),
        oid: Some(oid(2)),
        iid: Some(oid(5)),
    });
    assert_eq!(
        rooted_at_org.organization_unit(),
        Some(OrganizationUnitId::Organization(OrganizationResourceId {
            cid: oid(1),
            oid: oid(2),
            id: oid(5),
        }))
    );

    let not_a_unit = Owner::Customer(EntityId {
        id: Some(oid(9)),
        cid: Some(oid(1)),
        oid: None,
        iid: Some(oid(5)),
    });
    assert_eq!(not_a_unit.organization_unit(), None);
}
