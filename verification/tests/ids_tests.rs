use qm_customer::ids::{
    CustomerId, CustomerResourceId, EntityId, IdError, InstitutionResourceId, MissingFieldName,
    ObjectId, OrganizationResourceId, OrganizationUnitId, OrganizationUnitResourceId,
    StrictEntityId, StrictOrganizationUnitId, EMPTY_ID,
};

fn oid(v: u128) -> ObjectId {
    ObjectId { value: v }
}

#[test]
fn customer_id_round_trip() {
    let x = CustomerId { id: oid(0x0123456789abcdef01234567) };
    let s = x.encode();
    assert_eq!(s.len(), 24);
    assert_eq!(s, "0123456789abcdef01234567");
    assert_eq!(CustomerId::parse(&s), Ok(x));
}

#[test]
fn customer_id_zero_round_trip() {
    let x = CustomerId { id: oid(0) };
    let s = x.encode();
    assert_eq!(s, EMPTY_ID);
    assert_eq!(CustomerId::parse(&s), Ok(x));
}

#[test]
fn customer_resource_id_round_trip() {
    let x = CustomerResourceId { cid: oid(0xa), id: oid(0xb) };
    let s = x.encode();
    assert_eq!(s.len(), 48);
    assert_eq!(CustomerResourceId::parse(&s), Ok(x));
}

#[test]
fn organization_resource_id_round_trip() {
    let x = OrganizationResourceId { cid: oid(1), oid: oid(2), id: oid(3) };
    let s = x.encode();
    assert_eq!(s.len(), 72);
    assert_eq!(OrganizationResourceId::parse(&s), Ok(x));
}

#[test]
fn institution_resource_id_round_trip() {
    let x = InstitutionResourceId { cid: oid(1), oid: oid(2), iid: oid(3), id: oid(4) };
    let s = x.encode();
    assert_eq!(s.len(), 96);
    assert_eq!(InstitutionResourceId::parse(&s), Ok(x));
}

#[test]
fn strict_entity_id_round_trip() {
    let x = StrictEntityId { cid: oid(9), oid: oid(8), iid: oid(7), id: oid(6) };
    let s = x.encode();
    assert_eq!(s.len(), 96);
    assert_eq!(StrictEntityId::parse(&s), Ok(x));
}

#[test]
fn organization_unit_id_round_trip_both_variants() {
    let c = OrganizationUnitId::Customer(CustomerResourceId { cid: oid(1), id: oid(2) });
    let sc = c.encode();
    assert_eq!(sc.len(), 48);
    assert_eq!(OrganizationUnitId::parse(&sc), Ok(c));

    let o = OrganizationUnitId::Organization(OrganizationResourceId {
        cid: oid(1),
        oid: oid(2),
        id: oid(3),
    });
    let so = o.encode();
    assert_eq!(so.len(), 72);
    assert_eq!(OrganizationUnitId::parse(&so), Ok(o));
}

#[test]
fn organization_unit_resource_id_round_trip_both_shapes() {
    let without = OrganizationUnitResourceId { cid: oid(1), oid: None, uid: oid(2), id: oid(3) };
    let s = without.encode();
    assert_eq!(s.len(), 72);
    assert_eq!(OrganizationUnitResourceId::parse(&s), Ok(without));

    let with = OrganizationUnitResourceId {
        cid: oid(1),
        oid: Some(oid(9)),
        uid: oid(2),
        id: oid(3),
    };
    let s = with.encode();
    assert_eq!(s.len(), 96);
    assert_eq!(OrganizationUnitResourceId::parse(&s), Ok(with));
}

#[test]
fn entity_id_round_trip_always_full_width() {
    let full = EntityId {
        id: Some(oid(4)),
        cid: Some(oid(1)),
        oid: Some(oid(2)),
        iid: Some(oid(3)),
    };
    let s = full.encode();
    assert_eq!(s.len(), 96);
    assert_eq!(EntityId::parse(&s), Ok(full));

    let partial = EntityId { id: None, cid: Some(oid(1)), oid: None, iid: Some(oid(3)) };
    let s = partial.encode();
    assert_eq!(s.len(), 96);
    assert_eq!(&s[24..48], EMPTY_ID);
    assert_eq!(EntityId::parse(&s), Ok(partial));
}

#[test]
fn entity_id_parses_each_valid_length() {
    let c = "0123456789abcdef01234567";
    let e = EntityId::parse(c).unwrap();
    assert_eq!(e.cid, Some(oid(0x0123456789abcdef01234567)));
    assert_eq!(e.oid, None);
    assert_eq!(e.iid, None);
    assert_eq!(e.id, None);

    let two = format!("{c}{c}");
    let e = EntityId::parse(&two).unwrap();
    assert!(e.cid.is_some() && e.oid.is_some());
}

#[test]
fn length_validation_names_the_valid_set() {
    let s = "0".repeat(50);
    match CustomerResourceId::parse(&s) {
        Err(IdError::InvalidLength { len, expected }) => {
            assert_eq!(len, 50);
            assert_eq!(expected, vec![48]);
        }
        other => panic!("unexpected result: {other:?}"),
    }
    match EntityId::parse(&s) {
        Err(IdError::InvalidLength { len, expected }) => {
            assert_eq!(len, 50);
            assert_eq!(expected, vec![24, 48, 72, 96]);
        }
        other => panic!("unexpected result: {other:?}"),
    }
}

#[test]
fn invalid_segment_names_the_first_bad_range() {
    let mut s = "0".repeat(48);
    s.replace_range(30..31, "z");
    match CustomerResourceId::parse(&s) {
        Err(IdError::InvalidSegment { start, end }) => {
            assert_eq!((start, end), (24, 48));
        }
        other => panic!("unexpected result: {other:?}"),
    }
    let mut s = "0".repeat(48);
    s.replace_range(3..4, "!");
    match CustomerResourceId::parse(&s) {
        Err(IdError::InvalidSegment { start, end }) => {
            assert_eq!((start, end), (0, 24));
        }
        other => panic!("unexpected result: {other:?}"),
    }
}

#[test]
fn parse_accepts_upper_case_and_encodes_lower_case() {
    let s = "0123456789ABCDEF01234567";
    let x = CustomerId::parse(s).unwrap();
    assert_eq!(x.encode(), s.to_lowercase());
}

#[test]
fn entity_id_projections() {
    let e = EntityId {
        id: Some(oid(4)),
        cid: Some(oid(1)),
        oid: Some(oid(2)),
        iid: None,
    };
    assert_eq!(e.as_customer_id(), Some(CustomerId { id: oid(4) }));
    assert_eq!(
        e.as_organization_id(),
        Some(CustomerResourceId { cid: oid(1), id: oid(4) })
    );
    assert_eq!(
        e.as_institution_id(),
        Some(OrganizationResourceId { cid: oid(1), oid: oid(2), id: oid(4) })
    );
    assert_eq!(
        e.as_organization_unit_id(),
        Some(OrganizationUnitId::Organization(OrganizationResourceId {
            cid: oid(1),
            oid: oid(2),
            id: oid(4),
        }))
    );

    let bare = EntityId { id: Some(oid(4)), cid: None, oid: None, iid: None };
    assert_eq!(bare.as_organization_id(), None);
    assert_eq!(
        bare.with_customer(oid(7)).as_organization_id(),
        Some(CustomerResourceId { cid: oid(7), id: oid(4) })
    );
}

#[test]
fn strict_unit_conversion_reports_the_missing_field() {
    let no_cid = EntityId { id: Some(oid(1)), cid: None, oid: None, iid: None };
    assert_eq!(
        StrictOrganizationUnitId::try_from_entity(&no_cid),
        Err(IdError::MissingField { field: MissingFieldName::Cid })
    );
    let no_id = EntityId { id: None, cid: Some(oid(1)), oid: None, iid: None };
    assert_eq!(
        StrictOrganizationUnitId::try_from_entity(&no_id),
        Err(IdError::MissingField { field: MissingFieldName::Id })
    );
    let ok = EntityId { id: Some(oid(2)), cid: Some(oid(1)), oid: None, iid: None };
    let strict = StrictOrganizationUnitId::try_from_entity(&ok).unwrap();
    assert_eq!(strict.as_cid().as_id(), oid(1));
    assert_eq!(strict.as_uid().as_id(), oid(2));
    assert_eq!(strict.as_oid(), None);
}

#[test]
fn entity_id_chain_check() {
    let ok = EntityId { id: None, cid: Some(oid(1)), oid: Some(oid(2)), iid: None };
    assert!(ok.check_chain());
    let bad = EntityId { id: None, cid: None, oid: Some(oid(2)), iid: None };
    assert!(!bad.check_chain());
}
