use qm_customer::access::AccessRole;
use qm_customer::dec::dec_string;
use qm_customer::ids::{
    CustomerId, CustomerResourceId, ObjectId, OrganizationResourceId, OrganizationUnitId,
};
use qm_customer::mutation::{check_max_size, check_max_size_input_slice, NAME_MAX_LEN};
use qm_customer::model::MutationError;
use qm_customer::smtp::{get_smtp_server_defaults, SmtpConfig};

fn oid(v: u128) -> ObjectId {
    ObjectId { value: v }
}

#[test]
fn role_names_are_level_then_hyphen_joined_chain() {
    let customer = AccessRole::Customer(CustomerId { id: oid(1) });
    assert_eq!(customer.encode(), "customer:000000000000000000000001");

    let organization = AccessRole::Organization(CustomerResourceId { cid: oid(1), id: oid(2) });
    assert_eq!(
        organization.encode(),
        "organization:000000000000000000000001-000000000000000000000002"
    );

    let institution =
        AccessRole::Institution(OrganizationResourceId { cid: oid(1), oid: oid(2), id: oid(3) });
    assert_eq!(
        institution.encode(),
        "institution:000000000000000000000001-000000000000000000000002-000000000000000000000003"
    );

    let unit = AccessRole::OrganizationUnit(OrganizationUnitId::Customer(CustomerResourceId {
        cid: oid(1),
        id: oid(5),
    }));
    assert_eq!(
        unit.encode(),
        "organization_unit:000000000000000000000001-000000000000000000000005"
    );
}

#[test]
fn decimal_rendering() {
    assert_eq!(dec_string(0), "0");
    assert_eq!(dec_string(7), "7");
    assert_eq!(dec_string(1025), "1025");
    assert_eq!(dec_string(65535), "65535");
}

#[test]
fn smtp_defaults_fill_every_missing_setting() {
    let cfg = SmtpConfig {
        starttls: None,
        port: None,
        host: None,
        from: None,
        from_display_name: None,
        ssl: None,
    };
    let entries = get_smtp_server_defaults(&cfg).unwrap();
    assert_eq!(
        entries,
        vec![
            ("starttls".to_string(), "false".to_string()),
            ("port".to_string(), "1025".to_string()),
            ("host".to_string(), "smtp".to_string()),
            ("from".to_string(), "noreply@qm.local".to_string()),
            ("fromDisplayName".to_string(), "qm".to_string()),
            ("ssl".to_string(), "false".to_string()),
        ]
    );
}

#[test]
fn smtp_defaults_keep_configured_values() {
    let cfg = SmtpConfig {
        starttls: Some(true),
        port: Some(587),
        host: Some("mail.example".to_string()),
        from: Some("noreply@example".to_string()),
        from_display_name: Some("Example".to_string()),
        ssl: Some(false),
    };
    let entries = get_smtp_server_defaults(&cfg).unwrap();
    assert_eq!(entries[0].1, "true");
    assert_eq!(entries[1].1, "587");
    assert_eq!(entries[2].1, "mail.example");
    assert_eq!(entries[3].1, "noreply@example");
    assert_eq!(entries[4].1, "Example");
    assert_eq!(entries[5].1, "false");
}

#[test]
fn check_max_size_accepts_fitting_and_absent_values() {
    assert!(check_max_size("Customer name", Some("acme"), NAME_MAX_LEN).is_ok());
    assert!(check_max_size("Customer ty", None, 16).is_ok());
}

#[test]
fn check_max_size_rejects_long_values_naming_the_field() {
    match check_max_size("Customer ty", Some("seventeen-chars!!"), 16) {
        Err(MutationError::ValueTooLong { field, max }) => {
            assert_eq!(field, "Customer ty");
            assert_eq!(max, 16);
        }
        other => panic!("unexpected result: {other:?}"),
    }
}

#[test]
fn check_max_size_input_slice_accepts_small_inputs() {
    let ids: Vec<i64> = vec![1, 2, 3];
    assert!(check_max_size_input_slice("Customer ids", &ids).is_ok());
}
