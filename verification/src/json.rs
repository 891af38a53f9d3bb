//! Reading identity-provider attribute maps.
//!
//! User attributes arrive from the identity provider as JSON values: a
//! plain string, or an array whose first element is the string.  The
//! lookup logic here is verified; only the JSON accessors themselves are
//! trusted, with contracts over named projections of a JSON value.

use vstd::prelude::*;

verus! {

#[verifier::external_type_specification]
#[verifier::external_body]
pub struct ExValue(serde_json::Value);

#[verifier::external_type_specification]
#[verifier::external_body]
pub struct ExJsonError(serde_json::Error);

/// The string content of a JSON value, absent for non-strings.
pub uninterp spec fn json_str_of(v: serde_json::Value) -> Option<Seq<char>>;

/// The unsigned-integer content of a JSON value, absent for anything else.
pub uninterp spec fn json_u64_of(v: serde_json::Value) -> Option<u64>;

/// The boolean content of a JSON value, absent for non-booleans.
pub uninterp spec fn json_bool_of(v: serde_json::Value) -> Option<bool>;

/// Relies on serde_json::from_slice: parse one JSON document from bytes.
#[verifier::external_body]
pub fn json_parse(b: &[u8]) -> (r: Result<serde_json::Value, serde_json::Error>) {
    serde_json::from_slice(b)
}

/// Relies on serde_json::Value::get: member lookup in a JSON object, absent
/// when the value is no object or has no such member.
#[verifier::external_body]
pub fn json_get<'a>(v: &'a serde_json::Value, key: &str) -> (r: Option<&'a serde_json::Value>) {
    v.get(key)
}

/// Relies on serde_json::Value::as_str: the string content depends on the
/// value alone.
#[verifier::external_body]
pub fn json_as_str(v: &serde_json::Value) -> (r: Option<String>)
    ensures
        match r {
            Some(s) => json_str_of(*v) == Some(s@),
            None => json_str_of(*v) is None,
        },
{
    v.as_str().map(|s| s.to_owned())
}

/// Relies on serde_json::Value::as_u64: the integer content depends on the
/// value alone.
#[verifier::external_body]
pub fn json_as_u64(v: &serde_json::Value) -> (r: Option<u64>)
    ensures
        r == json_u64_of(*v),
{
    v.as_u64()
}

/// Relies on serde_json::Value::as_bool: the boolean content depends on the
/// value alone.
#[verifier::external_body]
pub fn json_as_bool(v: &serde_json::Value) -> (r: Option<bool>)
    ensures
        r == json_bool_of(*v),
{
    v.as_bool()
}

/// Relies on serde_json::Value::as_array: the first element of a JSON
/// array, absent for non-arrays and empty arrays.
#[verifier::external_body]
pub fn json_first<'a>(v: &'a serde_json::Value) -> (r: Option<&'a serde_json::Value>) {
    v.as_array().and_then(|a| a.first())
}

/// Character-wise string comparison.
pub fn str_eq(a: &str, b: &str) -> (r: bool)
    ensures
        r == (a@ == b@),
{
    let la = a.unicode_len();
    let lb = b.unicode_len();
    if la != lb {
        proof {
            assert(a@ != b@);
        }
        return false;
    }
    let mut i: usize = 0;
    while i < la
        invariant
            i <= la,
            la == a@.len(),
            la == b@.len(),
            forall|j: int| 0 <= j < i ==> a@[j] == b@[j],
        decreases la - i,
    {
        if a.get_char(i) != b.get_char(i) {
            return false;
        }
        i = i + 1;
    }
    proof {
        assert(a@ =~= b@);
    }
    true
}

/// The first attribute value stored under a key.
pub open spec fn attr_value(
    pairs: Seq<(String, serde_json::Value)>,
    key: Seq<char>,
) -> Option<serde_json::Value>
    decreases pairs.len(),
{
    if pairs.len() == 0 {
        None
    } else if pairs[0].0@ == key {
        Some(pairs[0].1)
    } else {
        attr_value(pairs.drop_first(), key)
    }
}

/// Look an attribute up by key: the value itself when it is a string, else
/// the first element of an array value when that is a string, else nothing.
pub fn get_attribute(
    attributes: Option<&Vec<(String, serde_json::Value)>>,
    key: &str,
) -> (r: Option<String>)
    ensures
        ({
            let found = match attributes {
                Some(pairs) => attr_value(pairs@, key@),
                None => None::<serde_json::Value>,
            };
            &&& found is None ==> r is None
            &&& found is Some && json_str_of(found->0) is Some ==> r is Some && r->0@
                == json_str_of(found->0)->0
        }),
{
    let pairs = match attributes {
        Some(pairs) => pairs,
        None => {
            return None;
        },
    };
    proof {
        assert(pairs@.subrange(0, pairs@.len() as int) =~= pairs@);
    }
    let mut i: usize = 0;
    while i < pairs.len()
        invariant
            attributes == Some(pairs),
            i <= pairs@.len(),
            attr_value(pairs@, key@) == attr_value(
                pairs@.subrange(i as int, pairs@.len() as int),
                key@,
            ),
        decreases pairs@.len() - i,
    {
        proof {
            let rest = pairs@.subrange(i as int, pairs@.len() as int);
            assert(rest[0] == pairs@[i as int]);
            assert(rest.drop_first() =~= pairs@.subrange(i + 1, pairs@.len() as int));
        }
        if str_eq(pairs[i].0.as_str(), key) {
            proof {
                let rest = pairs@.subrange(i as int, pairs@.len() as int);
                assert(rest[0] == pairs@[i as int]);
                assert(rest[0].0@ == key@);
                assert(attr_value(rest, key@) == Some(rest[0].1));
                assert(attr_value(pairs@, key@) == Some(pairs@[i as int].1));
            }
            let v = &pairs[i].1;
            match json_as_str(v) {
                Some(s) => {
                    return Some(s);
                },
                None => {
                    match json_first(v) {
                        Some(first) => {
                            return json_as_str(first);
                        },
                        None => {
                            return None;
                        },
                    }
                },
            }
        }
        i = i + 1;
    }
    proof {
        assert(pairs@.subrange(pairs@.len() as int, pairs@.len() as int) =~= Seq::<(
            String,
            serde_json::Value,
        )>::empty());
    }
    None
}

/// Build the user detail record from an identity-provider representation's
/// plain fields and attribute map: absent names default to empty, the
/// `phone`, `salutation` and `job-title` attributes are read through
/// [`get_attribute`].
pub fn build_user_details(
    user_id: u128,
    first_name: Option<String>,
    last_name: Option<String>,
    username: Option<String>,
    email: Option<String>,
    enabled: Option<bool>,
    attributes: Option<&Vec<(String, serde_json::Value)>>,
) -> (r: crate::model::UserDetails)
    ensures
        r.user_id == user_id,
        r.firstname@ == match first_name {
            Some(s) => s@,
            None => Seq::<char>::empty(),
        },
        r.lastname@ == match last_name {
            Some(s) => s@,
            None => Seq::<char>::empty(),
        },
        r.username@ == match username {
            Some(s) => s@,
            None => Seq::<char>::empty(),
        },
        r.email@ == match email {
            Some(s) => s@,
            None => Seq::<char>::empty(),
        },
        r.enabled == enabled.unwrap_or(false),
        attributes is None ==> r.phone is None && r.salutation is None && r.job_title is None,
{
    let details = crate::model::UserDetails {
        user_id,
        firstname: unwrap_or_empty(first_name),
        lastname: unwrap_or_empty(last_name),
        username: unwrap_or_empty(username),
        email: unwrap_or_empty(email),
        phone: get_attribute(attributes, "phone"),
        salutation: get_attribute(attributes, "salutation"),
        job_title: get_attribute(attributes, "job-title"),
        enabled: enabled.unwrap_or(false),
    };
    details
}

/// An optional string, empty when absent.
fn unwrap_or_empty(o: Option<String>) -> (r: String)
    ensures
        r@ == match o {
            Some(s) => s@,
            None => Seq::<char>::empty(),
        },
{
    match o {
        Some(s) => s,
        None => String::new(),
    }
}

} // verus!
