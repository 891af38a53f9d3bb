//! Input validation for the thin row mutations.
//!
//! The row inserts and updates themselves are single-statement operations
//! against the relational store and live with the caller; what belongs here
//! is the validation they all share: field-length limits and a cap on the
//! byte size of id-list inputs.

use vstd::prelude::*;

verus! {

use crate::model::MutationError;
use vstd::string::StringSliceAdditionalSpecFns;

/// Longest accepted name, in bytes.
pub const NAME_MAX_LEN: usize = 1024;

/// Longest accepted type tag, in bytes.
pub const TY_MAX_LEN: usize = 16;

/// Largest accepted id-list input, in bytes.
pub const INPUT_SLICE_MAX_SIZE: usize = 1024 * 1024 * 1024;

/// The default type tag a row gets when none is given.
pub const DEFAULT_TYPE: &'static str = "none";

/// Whether an optional field value fits the byte-length limit.
pub open spec fn within_max(v: Option<&str>, max_len: usize) -> bool {
    match v {
        Some(s) => s.spec_bytes().len() as usize <= max_len,
        None => true,
    }
}

/// Reject a field value longer than `max_len` bytes; an absent value
/// always passes.
pub fn check_max_size(name: &str, v: Option<&str>, max_len: usize) -> (r: Result<
    (),
    MutationError,
>)
    ensures
        r is Ok <==> within_max(v, max_len),
        match r {
            Ok(_) => true,
            Err(MutationError::ValueTooLong { field, max }) => field@ == name@ && max == max_len,
            Err(_) => false,
        },
{
    match v {
        Some(s) => {
            if s.len() > max_len {
                Err(MutationError::ValueTooLong { field: s_to_string(name), max: max_len })
            } else {
                Ok(())
            }
        },
        None => Ok(()),
    }
}

/// Reject an id-list input whose in-memory size exceeds the cap.
pub fn check_max_size_input_slice<T>(name: &str, v: &[T]) -> (r: Result<(), MutationError>)
    ensures
        r is Ok <==> vstd::layout::spec_size_of_val(v) <= INPUT_SLICE_MAX_SIZE,
        match r {
            Ok(_) => true,
            Err(MutationError::InputTooLarge { field, max }) => field@ == name@ && max
                == INPUT_SLICE_MAX_SIZE,
            Err(_) => false,
        },
{
    let mem_size = core::mem::size_of_val(v);
    if mem_size > INPUT_SLICE_MAX_SIZE {
        Err(MutationError::InputTooLarge { field: s_to_string(name), max: INPUT_SLICE_MAX_SIZE })
    } else {
        Ok(())
    }
}

/// Owned copy of a borrowed string.
fn s_to_string(s: &str) -> (r: String)
    ensures
        r@ == s@,
{
    String::from_str(s)
}

} // verus!
