//! Row-model types for the mutation surface.
//!
//! These mirror the relational rows and the request inputs as plain values:
//! row identifiers as integers, user identifiers as 128-bit values, and
//! timestamps as milliseconds.  The mutations that read and write the rows
//! live with the caller; these types carry the data across that boundary.

use vstd::prelude::*;

verus! {

use crate::ids::InfraId;
use crate::owner::Owner;

/// Rejection of a mutation input.
#[derive(Clone, Debug, PartialEq, Eq)]
pub enum MutationError {
    /// A field value exceeds its byte-length limit.
    ValueTooLong { field: String, max: usize },
    /// An id-list input exceeds the byte-size cap.
    InputTooLarge { field: String, max: usize },
    /// The acting context carries no user identity.
    Forbidden,
}

/// Request input for creating a customer row.
#[derive(Clone, Debug)]
pub struct QmCreateCustomerInput {
    pub id: Option<i64>,
    pub name: String,
    pub ty: Option<String>,
}

/// Request input for renaming a customer row.
#[derive(Clone, Debug)]
pub struct QmUpdateCustomerInput {
    pub name: String,
}

/// The validated payload of a customer creation: name, type tag, row id.
#[derive(Clone, Debug)]
pub struct CustomerData(pub String, pub Option<String>, pub Option<i64>);

/// One customer row.
#[derive(Clone, Debug)]
pub struct QmCustomer {
    pub id: InfraId,
    pub name: String,
    pub ty: String,
    pub created_by: u128,
    pub created_at: i64,
    pub updated_by: Option<u128>,
    pub updated_at: Option<i64>,
}

/// A customer row as its update event carries it.
#[derive(Clone, Debug)]
pub struct CustomerUpdate {
    pub id: InfraId,
    pub name: String,
    pub ty: String,
    pub created_by: u128,
    pub created_at: String,
    pub updated_by: Option<u128>,
    pub updated_at: Option<String>,
}

/// What a customer removal reports back.
#[derive(Clone, Debug)]
pub struct RemoveCustomerPayload {
    pub id: InfraId,
    pub name: String,
}

impl CustomerUpdate {
    /// The removal payload for this row.
    pub fn to_remove_payload(self) -> (r: RemoveCustomerPayload)
        ensures
            r.id == self.id,
            r.name == self.name,
    {
        RemoveCustomerPayload { id: self.id, name: self.name }
    }
}

impl QmCustomer {
    /// The removal payload for this row.
    pub fn to_remove_payload(&self) -> (r: RemoveCustomerPayload)
        ensures
            r.id == self.id,
            r.name@ == self.name@,
    {
        RemoveCustomerPayload { id: self.id, name: self.name.clone() }
    }
}

/// One page of customer rows.
#[derive(Clone, Debug)]
pub struct QmCustomerList {
    pub items: Vec<QmCustomer>,
    pub limit: Option<i64>,
    pub total: Option<i64>,
    pub page: Option<i64>,
}

/// An action the identity provider requires of a user at next login.
#[derive(Clone, Copy, Debug, PartialEq, Eq, Structural)]
pub enum RequiredUserAction {
    UpdatePassword,
}

/// Wire name of a required action.
pub open spec fn required_user_action_name(a: RequiredUserAction) -> Seq<char> {
    match a {
        RequiredUserAction::UpdatePassword => "UPDATE_PASSWORD"@,
    }
}

impl RequiredUserAction {
    pub fn name(&self) -> (r: &'static str)
        ensures
            r@ == required_user_action_name(*self),
    {
        proof {
            reveal_strlit("UPDATE_PASSWORD");
        }
        match self {
            RequiredUserAction::UpdatePassword => "UPDATE_PASSWORD",
        }
    }
}

/// Request input for creating a user.
#[derive(Clone, Debug)]
pub struct CreateUserInput {
    pub username: String,
    pub firstname: String,
    pub lastname: String,
    pub password: String,
    pub email: String,
    pub phone: Option<String>,
    pub salutation: Option<String>,
    pub room_number: Option<String>,
    pub job_title: Option<String>,
    pub enabled: Option<bool>,
    pub required_actions: Option<Vec<RequiredUserAction>>,
}

/// The identity-provider detail of one user.
#[derive(Clone, Debug)]
pub struct UserDetails {
    pub user_id: u128,
    pub firstname: String,
    pub lastname: String,
    pub username: String,
    pub email: String,
    pub phone: Option<String>,
    pub salutation: Option<String>,
    pub job_title: Option<String>,
    pub enabled: bool,
}

/// Who changed a record, and when (milliseconds).
#[derive(Clone, Copy, Debug, PartialEq, Eq, Structural)]
pub struct Modification {
    pub user_id: u128,
    pub at: i64,
}

/// One user document as the store holds it.
#[derive(Clone, Debug)]
pub struct User {
    pub owner: Owner,
    pub groups: Vec<String>,
    pub access: String,
    pub custom_groups: Vec<String>,
    pub details: UserDetails,
    pub created: Modification,
    pub modified: Option<Modification>,
}

/// The data a user creation carries before the acting context stamps it.
#[derive(Clone, Debug)]
pub struct UserData {
    pub owner: Owner,
    pub groups: Vec<String>,
    pub details: UserDetails,
    pub access: String,
}

impl UserData {
    /// Stamp the payload with the acting user and the current time; a
    /// context without a user identity is forbidden from creating users.
    pub fn create(self, acting_user: Option<u128>, now: i64) -> (r: Result<User, MutationError>)
        ensures
            r is Ok <==> acting_user is Some,
            match r {
                Ok(u) => u.owner == self.owner && u.groups == self.groups && u.access
                    == self.access && u.custom_groups@.len() == 0 && u.details == self.details
                    && u.created == (Modification { user_id: acting_user->0, at: now })
                    && u.modified is None,
                Err(e) => e == MutationError::Forbidden,
            },
    {
        match acting_user {
            Some(user_id) => Ok(
                User {
                    owner: self.owner,
                    groups: self.groups,
                    access: self.access,
                    custom_groups: Vec::new(),
                    details: self.details,
                    created: Modification { user_id, at: now },
                    modified: None,
                },
            ),
            None => Err(MutationError::Forbidden),
        }
    }
}

/// One page of users.
#[derive(Clone, Debug)]
pub struct UserList {
    pub items: Vec<User>,
    pub limit: Option<i64>,
    pub total: Option<i64>,
    pub page: Option<i64>,
}

impl UserList {
    pub fn new(items: Vec<User>, limit: Option<i64>, total: Option<i64>, page: Option<i64>) -> (r:
        Self)
        ensures
            r.items == items,
            r.limit == limit,
            r.total == total,
            r.page == page,
    {
        UserList { items, limit, total, page }
    }
}

/// Everything a user-creation request names.
#[derive(Clone, Debug)]
pub struct CreateUserPayload {
    pub user: CreateUserInput,
    pub group: String,
    pub access: String,
    pub owner: Owner,
}

} // verus!
