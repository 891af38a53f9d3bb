use qm_customer::ids::{EntityId, InfraId, ObjectId};
use qm_customer::model::{
    Modification, MutationError, RequiredUserAction, UserData, UserDetails, UserList,
};
use qm_customer::owner::Owner;

fn details() -> UserDetails {
    UserDetails {
        user_id: 7,
        firstname: "Ada".to_string(),
        lastname: "L".to_string(),
        username: "ada".to_string(),
        email: "ada@example".to_string(),
        phone: None,
        salutation: None,
        job_title: None,
        enabled: true,
    }
}

fn owner() -> Owner {
    Owner::Customer(EntityId {
        id: Some(ObjectId { value: 5 }),
        cid: Some(ObjectId { value: 1 }),
        oid: None,
        iid: None,
    })
}

#[test]
fn user_creation_stamps_the_acting_user() {
    let data = UserData {
        owner: owner(),
        groups: vec!["g".to_string()],
        details: details(),
        access: "customer:x".to_string(),
    };
    let user = data.create(Some(42), 1700000000).unwrap();
    assert_eq!(user.created, Modification { user_id: 42, at: 1700000000 });
    assert_eq!(user.modified, None);
    assert!(user.custom_groups.is_empty());
    assert_eq!(user.groups, vec!["g".to_string()]);
}

#[test]
fn user_creation_without_an_acting_user_is_forbidden() {
    let data = UserData {
        owner: owner(),
        groups: vec![],
        details: details(),
        access: String::new(),
    };
    assert_eq!(
        data.create(None, 0).unwrap_err(),
        MutationError::Forbidden
    );
}

#[test]
fn required_action_wire_name() {
    assert_eq!(RequiredUserAction::UpdatePassword.name(), "UPDATE_PASSWORD");
}

#[test]
fn user_list_keeps_its_page_shape() {
    let l = UserList::new(vec![], Some(10), Some(0), Some(1));
    assert_eq!(l.limit, Some(10));
    assert_eq!(l.total, Some(0));
    assert_eq!(l.page, Some(1));
}

#[test]
fn infra_id_wraps_a_row_id() {
    let id = InfraId::new(31);
    assert_eq!(id.as_i64(), 31);
}
