//! Composite hierarchical identifiers.
//!
//! A node of the tenant tree is addressed by the chain of its ancestors'
//! atomic identifiers followed by its own.  On the wire every atomic
//! identifier is a fixed 24-character hexadecimal segment, and a composite
//! identifier is the plain concatenation of its segments in
//! ancestor-to-descendant order; an all-zero segment stands for an absent
//! optional field.  Parsing validates the exact length for the target type
//! before it decodes any segment.

use vstd::prelude::*;

verus! {

use crate::hex::{
    all_hex, hex_seq, hex_value, pow16, append_hex24, parse_hex24_at,
    lemma_hex_seq_len, lemma_hex_value_hex_seq,
};

/// The all-zero wire segment standing for an absent optional field.
pub const EMPTY_ID: &'static str = "000000000000000000000000";

/// An atomic 96-bit identifier, the building block of every composite id.
#[derive(Clone, Copy, Debug, PartialEq, Eq, Structural, Hash, PartialOrd, Ord)]
pub struct ObjectId {
    pub value: u128,
}

impl ObjectId {
    /// The identifier fits in the 96-bit space of its wire encoding.
    pub open spec fn wf(self) -> bool {
        (self.value as nat) < pow16(24)
    }

    /// Canonical 24-character wire segment.
    pub open spec fn seg(self) -> Seq<char> {
        hex_seq(self.value as nat, 24)
    }

    pub fn new(value: u128) -> (r: Self)
        requires
            (value as nat) < pow16(24),
        ensures
            r.value == value,
            r.wf(),
    {
        ObjectId { value }
    }

    /// Encode as the 24 hexadecimal characters of the wire format.
    pub fn to_hex(&self) -> (r: String)
        ensures
            r@ == self.seg(),
    {
        let mut out = String::new();
        append_hex24(&mut out, self.value);
        out
    }
}

impl Default for ObjectId {
    /// The zero identifier, which the wire format prints as the empty sentinel.
    fn default() -> (r: Self)
        ensures
            r.value == 0,
    {
        ObjectId { value: 0 }
    }
}

/// Wire segment of an optional field: the sentinel when the field is absent.
pub open spec fn opt_seg(o: Option<ObjectId>) -> Seq<char> {
    match o {
        Some(x) => x.seg(),
        None => hex_seq(0, 24),
    }
}

pub open spec fn opt_wf(o: Option<ObjectId>) -> bool {
    match o {
        Some(x) => x.wf() && x.value != 0,
        None => true,
    }
}

/// The 24-character segment of `s` at segment index `k`.
pub open spec fn seg_at(s: Seq<char>, k: int) -> Seq<char> {
    s.subrange(24 * k, 24 * k + 24)
}

pub open spec fn seg_hex(s: Seq<char>, k: int) -> bool {
    all_hex(seg_at(s, k))
}

pub open spec fn seg_val(s: Seq<char>, k: int) -> nat {
    hex_value(seg_at(s, k))
}

/// Decoded required field at segment `k`; the all-zero segment is a literal
/// zero-valued identifier here, not "absent".
pub open spec fn seg_id(s: Seq<char>, k: int) -> ObjectId {
    ObjectId { value: seg_val(s, k) as u128 }
}

/// Decoded optional field at segment `k`: the all-zero segment means "absent".
pub open spec fn seg_opt_id(s: Seq<char>, k: int) -> Option<ObjectId> {
    if seg_val(s, k) == 0 {
        None
    } else {
        Some(seg_id(s, k))
    }
}

/// Rejection of a malformed identifier string at the parse boundary.
#[derive(Clone, Debug, PartialEq, Eq)]
pub enum IdError {
    /// The string's length is not in the set of valid lengths for the type.
    InvalidLength { len: usize, expected: Vec<usize> },
    /// The 24-character segment at `start..end` is not hexadecimal.
    InvalidSegment { start: usize, end: usize },
    /// A field the target type requires is absent from the source value.
    MissingField { field: MissingFieldName },
}

/// Which field a conversion found absent.
#[derive(Clone, Copy, Debug, PartialEq, Eq, Structural)]
pub enum MissingFieldName {
    Cid,
    Oid,
    Iid,
    Id,
}

/// The error value names a malformed segment, the first one of the string.
pub open spec fn is_first_bad_seg(s: Seq<char>, start: usize, end: usize, nsegs: int) -> bool {
    &&& end == start + 24
    &&& start % 24 == 0
    &&& 0 <= (start as int) / 24 < nsegs
    &&& !seg_hex(s, (start as int) / 24)
    &&& forall|j: int| 0 <= j < (start as int) / 24 ==> seg_hex(s, j)
}

/// A bare customer reference.
#[derive(Clone, Copy, Debug, PartialEq, Eq, Structural, Hash, PartialOrd, Ord)]
pub struct CustomerId {
    pub id: ObjectId,
}

/// What a valid 24-character string for [`CustomerId`] decodes to.
pub open spec fn parse_customer_id_spec(s: Seq<char>) -> Option<CustomerId> {
    if s.len() == 24 && seg_hex(s, 0) {
        Some(CustomerId { id: seg_id(s, 0) })
    } else {
        None
    }
}

impl CustomerId {
    pub open spec fn wf(self) -> bool {
        self.id.wf()
    }

    /// Canonical wire encoding: 24 characters.
    pub open spec fn encoding(self) -> Seq<char> {
        self.id.seg()
    }

    pub fn encode(&self) -> (r: String)
        ensures
            r@ == self.encoding(),
    {
        let mut out = String::new();
        append_hex24(&mut out, self.id.value);
        out
    }

    /// Parse the 24-character wire form; any other length is rejected.
    pub fn parse(s: &str) -> (r: Result<Self, IdError>)
        ensures
            match r {
                Ok(x) => parse_customer_id_spec(s@) == Some(x),
                Err(IdError::InvalidLength { len, expected }) => s@.len() != 24 && len == s@.len()
                    && expected@ =~= seq![24usize],
                Err(IdError::InvalidSegment { start, end }) => s@.len() == 24 && is_first_bad_seg(
                    s@,
                    start,
                    end,
                    1,
                ),
                Err(IdError::MissingField { .. }) => false,
            },
            r is Ok <==> parse_customer_id_spec(s@) is Some,
    {
        let n = s.unicode_len();
        if n != 24 {
            return Err(IdError::InvalidLength { len: n, expected: vec![24] });
        }
        match parse_hex24_at(s, 0) {
            None => {
                proof {
                    assert(seg_at(s@, 0) =~= s@.subrange(0, 24));
                }
                Err(IdError::InvalidSegment { start: 0, end: 24 })
            },
            Some(v) => {
                proof {
                    assert(seg_at(s@, 0) =~= s@.subrange(0, 24));
                }
                Ok(CustomerId { id: ObjectId { value: v } })
            },
        }
    }
}

/// Encoding then parsing gives back every well-formed [`CustomerId`].
pub proof fn lemma_customer_id_roundtrip(x: CustomerId)
    requires
        x.wf(),
    ensures
        x.encoding().len() == 24,
        parse_customer_id_spec(x.encoding()) == Some(x),
{
    lemma_hex_seq_len(x.id.value as nat, 24);
    let e = x.encoding();
    assert(seg_at(e, 0) =~= e);
    lemma_hex_value_hex_seq(x.id.value as nat, 24);
    vstd::arithmetic::div_mod::lemma_small_mod(x.id.value as nat, pow16(24));
}

/// A well-formed identifier decodes from its own segment.
proof fn lemma_seg_decodes(x: ObjectId)
    requires
        x.wf(),
    ensures
        x.seg().len() == 24,
        all_hex(x.seg()),
        hex_value(x.seg()) == x.value as nat,
{
    lemma_hex_seq_len(x.value as nat, 24);
    lemma_hex_value_hex_seq(x.value as nat, 24);
    vstd::arithmetic::div_mod::lemma_small_mod(x.value as nat, pow16(24));
}

/// Append the wire segment of an optional field, the sentinel when absent.
fn append_opt_seg(out: &mut String, o: &Option<ObjectId>)
    ensures
        final(out)@ == old(out)@ + opt_seg(*o),
{
    match o {
        Some(x) => append_hex24(out, x.value),
        None => append_hex24(out, 0),
    }
}

/// A resource scoped to one customer: an Organization, or a Customer-rooted
/// Organization Unit.
#[derive(Clone, Copy, Debug, PartialEq, Eq, Structural, Hash, PartialOrd, Ord)]
pub struct CustomerResourceId {
    pub cid: ObjectId,
    pub id: ObjectId,
}

/// An Organization is addressed as a resource of its Customer.
pub type OrganizationId = CustomerResourceId;

/// What a valid 48-character string for [`CustomerResourceId`] decodes to.
pub open spec fn parse_customer_resource_id_spec(s: Seq<char>) -> Option<CustomerResourceId> {
    if s.len() == 48 && seg_hex(s, 0) && seg_hex(s, 1) {
        Some(CustomerResourceId { cid: seg_id(s, 0), id: seg_id(s, 1) })
    } else {
        None
    }
}

impl CustomerResourceId {
    pub open spec fn wf(self) -> bool {
        self.cid.wf() && self.id.wf()
    }

    /// Canonical wire encoding: ancestor first, 48 characters.
    pub open spec fn encoding(self) -> Seq<char> {
        self.cid.seg() + self.id.seg()
    }

    pub fn encode(&self) -> (r: String)
        ensures
            r@ == self.encoding(),
    {
        let mut out = String::new();
        append_hex24(&mut out, self.cid.value);
        append_hex24(&mut out, self.id.value);
        out
    }

    /// Parse the 48-character wire form; any other length is rejected.
    pub fn parse(s: &str) -> (r: Result<Self, IdError>)
        ensures
            match r {
                Ok(x) => parse_customer_resource_id_spec(s@) == Some(x),
                Err(IdError::InvalidLength { len, expected }) => s@.len() != 48 && len == s@.len()
                    && expected@ =~= seq![48usize],
                Err(IdError::InvalidSegment { start, end }) => s@.len() == 48 && is_first_bad_seg(
                    s@,
                    start,
                    end,
                    2,
                ),
                Err(IdError::MissingField { .. }) => false,
            },
            r is Ok <==> parse_customer_resource_id_spec(s@) is Some,
    {
        let n = s.unicode_len();
        if n != 48 {
            return Err(IdError::InvalidLength { len: n, expected: vec![48] });
        }
        proof {
            assert(seg_at(s@, 0) =~= s@.subrange(0, 24));
            assert(seg_at(s@, 1) =~= s@.subrange(24, 48));
        }
        let cid = match parse_hex24_at(s, 0) {
            None => {
                return Err(IdError::InvalidSegment { start: 0, end: 24 });
            },
            Some(v) => v,
        };
        let id = match parse_hex24_at(s, 24) {
            None => {
                return Err(IdError::InvalidSegment { start: 24, end: 48 });
            },
            Some(v) => v,
        };
        Ok(CustomerResourceId { cid: ObjectId { value: cid }, id: ObjectId { value: id } })
    }
}

/// Encoding then parsing gives back every well-formed [`CustomerResourceId`].
pub proof fn lemma_customer_resource_id_roundtrip(x: CustomerResourceId)
    requires
        x.wf(),
    ensures
        x.encoding().len() == 48,
        parse_customer_resource_id_spec(x.encoding()) == Some(x),
{
    lemma_seg_decodes(x.cid);
    lemma_seg_decodes(x.id);
    let e = x.encoding();
    assert(seg_at(e, 0) =~= x.cid.seg());
    assert(seg_at(e, 1) =~= x.id.seg());
}

/// A resource scoped to one organization: an Institution, or an
/// Organization-rooted Organization Unit.
#[derive(Clone, Copy, Debug, PartialEq, Eq, Structural, Hash, PartialOrd, Ord)]
pub struct OrganizationResourceId {
    pub cid: ObjectId,
    pub oid: ObjectId,
    pub id: ObjectId,
}

/// An Institution is addressed as a resource of its Organization.
pub type InstitutionId = OrganizationResourceId;

/// What a valid 72-character string for [`OrganizationResourceId`] decodes to.
pub open spec fn parse_organization_resource_id_spec(s: Seq<char>) -> Option<
    OrganizationResourceId,
> {
    if s.len() == 72 && seg_hex(s, 0) && seg_hex(s, 1) && seg_hex(s, 2) {
        Some(
            OrganizationResourceId { cid: seg_id(s, 0), oid: seg_id(s, 1), id: seg_id(s, 2) },
        )
    } else {
        None
    }
}

impl OrganizationResourceId {
    pub open spec fn wf(self) -> bool {
        self.cid.wf() && self.oid.wf() && self.id.wf()
    }

    /// Canonical wire encoding: ancestors first, 72 characters.
    pub open spec fn encoding(self) -> Seq<char> {
        self.cid.seg() + self.oid.seg() + self.id.seg()
    }

    pub fn encode(&self) -> (r: String)
        ensures
            r@ == self.encoding(),
    {
        let mut out = String::new();
        append_hex24(&mut out, self.cid.value);
        append_hex24(&mut out, self.oid.value);
        append_hex24(&mut out, self.id.value);
        out
    }

    /// The Organization identifier made of the two ancestor-most fields.
    pub fn to_customer_resource_id(&self) -> (r: CustomerResourceId)
        ensures
            r == (CustomerResourceId { cid: self.cid, id: self.oid }),
    {
        CustomerResourceId { cid: self.cid, id: self.oid }
    }

    /// Parse the 72-character wire form; any other length is rejected.
    pub fn parse(s: &str) -> (r: Result<Self, IdError>)
        ensures
            match r {
                Ok(x) => parse_organization_resource_id_spec(s@) == Some(x),
                Err(IdError::InvalidLength { len, expected }) => s@.len() != 72 && len == s@.len()
                    && expected@ =~= seq![72usize],
                Err(IdError::InvalidSegment { start, end }) => s@.len() == 72 && is_first_bad_seg(
                    s@,
                    start,
                    end,
                    3,
                ),
                Err(IdError::MissingField { .. }) => false,
            },
            r is Ok <==> parse_organization_resource_id_spec(s@) is Some,
    {
        let n = s.unicode_len();
        if n != 72 {
            return Err(IdError::InvalidLength { len: n, expected: vec![72] });
        }
        proof {
            assert(seg_at(s@, 0) =~= s@.subrange(0, 24));
            assert(seg_at(s@, 1) =~= s@.subrange(24, 48));
            assert(seg_at(s@, 2) =~= s@.subrange(48, 72));
        }
        let cid = match parse_hex24_at(s, 0) {
            None => {
                return Err(IdError::InvalidSegment { start: 0, end: 24 });
            },
            Some(v) => v,
        };
        let oid = match parse_hex24_at(s, 24) {
            None => {
                return Err(IdError::InvalidSegment { start: 24, end: 48 });
            },
            Some(v) => v,
        };
        let id = match parse_hex24_at(s, 48) {
            None => {
                return Err(IdError::InvalidSegment { start: 48, end: 72 });
            },
            Some(v) => v,
        };
        Ok(
            OrganizationResourceId {
                cid: ObjectId { value: cid },
                oid: ObjectId { value: oid },
                id: ObjectId { value: id },
            },
        )
    }
}

/// Encoding then parsing gives back every well-formed [`OrganizationResourceId`].
pub proof fn lemma_organization_resource_id_roundtrip(x: OrganizationResourceId)
    requires
        x.wf(),
    ensures
        x.encoding().len() == 72,
        parse_organization_resource_id_spec(x.encoding()) == Some(x),
{
    lemma_seg_decodes(x.cid);
    lemma_seg_decodes(x.oid);
    lemma_seg_decodes(x.id);
    let e = x.encoding();
    assert(seg_at(e, 0) =~= x.cid.seg());
    assert(seg_at(e, 1) =~= x.oid.seg());
    assert(seg_at(e, 2) =~= x.id.seg());
}

/// A fully-qualified leaf-resource identifier.
#[derive(Clone, Copy, Debug, PartialEq, Eq, Structural, Hash, PartialOrd, Ord)]
pub struct InstitutionResourceId {
    pub cid: ObjectId,
    pub oid: ObjectId,
    pub iid: ObjectId,
    pub id: ObjectId,
}

/// What a valid 96-character string for [`InstitutionResourceId`] decodes to.
pub open spec fn parse_institution_resource_id_spec(s: Seq<char>) -> Option<
    InstitutionResourceId,
> {
    if s.len() == 96 && seg_hex(s, 0) && seg_hex(s, 1) && seg_hex(s, 2) && seg_hex(s, 3) {
        Some(
            InstitutionResourceId {
                cid: seg_id(s, 0),
                oid: seg_id(s, 1),
                iid: seg_id(s, 2),
                id: seg_id(s, 3),
            },
        )
    } else {
        None
    }
}

impl InstitutionResourceId {
    pub open spec fn wf(self) -> bool {
        self.cid.wf() && self.oid.wf() && self.iid.wf() && self.id.wf()
    }

    /// Canonical wire encoding: ancestors first, 96 characters.
    pub open spec fn encoding(self) -> Seq<char> {
        self.cid.seg() + self.oid.seg() + self.iid.seg() + self.id.seg()
    }

    pub fn encode(&self) -> (r: String)
        ensures
            r@ == self.encoding(),
    {
        let mut out = String::new();
        append_hex24(&mut out, self.cid.value);
        append_hex24(&mut out, self.oid.value);
        append_hex24(&mut out, self.iid.value);
        append_hex24(&mut out, self.id.value);
        out
    }

    /// Parse the 96-character wire form; any other length is rejected.
    pub fn parse(s: &str) -> (r: Result<Self, IdError>)
        ensures
            match r {
                Ok(x) => parse_institution_resource_id_spec(s@) == Some(x),
                Err(IdError::InvalidLength { len, expected }) => s@.len() != 96 && len == s@.len()
                    && expected@ =~= seq![96usize],
                Err(IdError::InvalidSegment { start, end }) => s@.len() == 96 && is_first_bad_seg(
                    s@,
                    start,
                    end,
                    4,
                ),
                Err(IdError::MissingField { .. }) => false,
            },
            r is Ok <==> parse_institution_resource_id_spec(s@) is Some,
    {
        let n = s.unicode_len();
        if n != 96 {
            return Err(IdError::InvalidLength { len: n, expected: vec![96] });
        }
        proof {
            assert(seg_at(s@, 0) =~= s@.subrange(0, 24));
            assert(seg_at(s@, 1) =~= s@.subrange(24, 48));
            assert(seg_at(s@, 2) =~= s@.subrange(48, 72));
            assert(seg_at(s@, 3) =~= s@.subrange(72, 96));
        }
        let cid = match parse_hex24_at(s, 0) {
            None => {
                return Err(IdError::InvalidSegment { start: 0, end: 24 });
            },
            Some(v) => v,
        };
        let oid = match parse_hex24_at(s, 24) {
            None => {
                return Err(IdError::InvalidSegment { start: 24, end: 48 });
            },
            Some(v) => v,
        };
        let iid = match parse_hex24_at(s, 48) {
            None => {
                return Err(IdError::InvalidSegment { start: 48, end: 72 });
            },
            Some(v) => v,
        };
        let id = match parse_hex24_at(s, 72) {
            None => {
                return Err(IdError::InvalidSegment { start: 72, end: 96 });
            },
            Some(v) => v,
        };
        Ok(
            InstitutionResourceId {
                cid: ObjectId { value: cid },
                oid: ObjectId { value: oid },
                iid: ObjectId { value: iid },
                id: ObjectId { value: id },
            },
        )
    }
}

/// Encoding then parsing gives back every well-formed [`InstitutionResourceId`].
pub proof fn lemma_institution_resource_id_roundtrip(x: InstitutionResourceId)
    requires
        x.wf(),
    ensures
        x.encoding().len() == 96,
        parse_institution_resource_id_spec(x.encoding()) == Some(x),
{
    lemma_seg_decodes(x.cid);
    lemma_seg_decodes(x.oid);
    lemma_seg_decodes(x.iid);
    lemma_seg_decodes(x.id);
    let e = x.encoding();
    assert(seg_at(e, 0) =~= x.cid.seg());
    assert(seg_at(e, 1) =~= x.oid.seg());
    assert(seg_at(e, 2) =~= x.iid.seg());
    assert(seg_at(e, 3) =~= x.id.seg());
}

/// The four-field identifier accepted at the cleanup-task boundary: every
/// ancestor field is mandatory.
#[derive(Clone, Copy, Debug, PartialEq, Eq, Structural, Hash, PartialOrd, Ord)]
pub struct StrictEntityId {
    pub cid: ObjectId,
    pub oid: ObjectId,
    pub iid: ObjectId,
    pub id: ObjectId,
}

/// What a valid 96-character string for [`StrictEntityId`] decodes to.
pub open spec fn parse_strict_entity_id_spec(s: Seq<char>) -> Option<StrictEntityId> {
    if s.len() == 96 && seg_hex(s, 0) && seg_hex(s, 1) && seg_hex(s, 2) && seg_hex(s, 3) {
        Some(
            StrictEntityId {
                cid: seg_id(s, 0),
                oid: seg_id(s, 1),
                iid: seg_id(s, 2),
                id: seg_id(s, 3),
            },
        )
    } else {
        None
    }
}

impl StrictEntityId {
    pub open spec fn wf(self) -> bool {
        self.cid.wf() && self.oid.wf() && self.iid.wf() && self.id.wf()
    }

    /// Canonical wire encoding: ancestors first, 96 characters.
    pub open spec fn encoding(self) -> Seq<char> {
        self.cid.seg() + self.oid.seg() + self.iid.seg() + self.id.seg()
    }

    pub fn encode(&self) -> (r: String)
        ensures
            r@ == self.encoding(),
    {
        let mut out = String::new();
        append_hex24(&mut out, self.cid.value);
        append_hex24(&mut out, self.oid.value);
        append_hex24(&mut out, self.iid.value);
        append_hex24(&mut out, self.id.value);
        out
    }

    /// Parse the 96-character wire form; any other length is rejected.
    pub fn parse(s: &str) -> (r: Result<Self, IdError>)
        ensures
            match r {
                Ok(x) => parse_strict_entity_id_spec(s@) == Some(x),
                Err(IdError::InvalidLength { len, expected }) => s@.len() != 96 && len == s@.len()
                    && expected@ =~= seq![96usize],
                Err(IdError::InvalidSegment { start, end }) => s@.len() == 96 && is_first_bad_seg(
                    s@,
                    start,
                    end,
                    4,
                ),
                Err(IdError::MissingField { .. }) => false,
            },
            r is Ok <==> parse_strict_entity_id_spec(s@) is Some,
    {
        match InstitutionResourceId::parse(s) {
            Ok(x) => Ok(
                StrictEntityId { cid: x.cid, oid: x.oid, iid: x.iid, id: x.id },
            ),
            Err(e) => Err(e),
        }
    }
}

/// The loose universal identifier: every field optional.  It is the parse
/// target for any composite id and the projection target when an ancestor
/// identity is extracted from a more specific one.
#[derive(Clone, Copy, Debug, PartialEq, Eq, Structural, Hash, PartialOrd, Ord)]
pub struct EntityId {
    pub id: Option<ObjectId>,
    pub cid: Option<ObjectId>,
    pub oid: Option<ObjectId>,
    pub iid: Option<ObjectId>,
}

/// What a valid string of length 24, 48, 72 or 96 for [`EntityId`] decodes
/// to: the ancestor chain read left to right, each all-zero segment "absent".
pub open spec fn parse_entity_id_spec(s: Seq<char>) -> Option<EntityId> {
    let n = s.len() as int;
    if (n == 24 || n == 48 || n == 72 || n == 96) && (forall|k: int|
        0 <= k < n / 24 ==> seg_hex(s, k)) {
        Some(
            EntityId {
                cid: seg_opt_id(s, 0),
                oid: if n >= 48 {
                    seg_opt_id(s, 1)
                } else {
                    None
                },
                iid: if n >= 72 {
                    seg_opt_id(s, 2)
                } else {
                    None
                },
                id: if n >= 96 {
                    seg_opt_id(s, 3)
                } else {
                    None
                },
            },
        )
    } else {
        None
    }
}

impl EntityId {
    /// Present fields are in range and never the zero sentinel value.
    pub open spec fn wf(self) -> bool {
        opt_wf(self.id) && opt_wf(self.cid) && opt_wf(self.oid) && opt_wf(self.iid)
    }

    /// A present descendant field always comes with its ancestors.
    pub open spec fn chain_ok(self) -> bool {
        &&& self.oid is Some ==> self.cid is Some
        &&& self.iid is Some ==> self.cid is Some && self.oid is Some
    }

    /// Canonical wire encoding: always the full 96 characters, absent fields
    /// as the sentinel, in ancestor-to-descendant order.
    pub open spec fn encoding(self) -> Seq<char> {
        opt_seg(self.cid) + opt_seg(self.oid) + opt_seg(self.iid) + opt_seg(self.id)
    }

    pub fn encode(&self) -> (r: String)
        ensures
            r@ == self.encoding(),
    {
        let mut out = String::new();
        append_opt_seg(&mut out, &self.cid);
        append_opt_seg(&mut out, &self.oid);
        append_opt_seg(&mut out, &self.iid);
        append_opt_seg(&mut out, &self.id);
        out
    }

    /// Whether the ancestor-chain invariant holds of this loose identifier.
    pub fn check_chain(&self) -> (r: bool)
        ensures
            r == self.chain_ok(),
    {
        (self.oid.is_none() || self.cid.is_some()) && (self.iid.is_none() || (self.cid.is_some()
            && self.oid.is_some()))
    }

    /// Parse a wire form of any of the four valid lengths.
    pub fn parse(s: &str) -> (r: Result<Self, IdError>)
        ensures
            match r {
                Ok(x) => parse_entity_id_spec(s@) == Some(x),
                Err(IdError::InvalidLength { len, expected }) => !(s@.len() == 24 || s@.len() == 48
                    || s@.len() == 72 || s@.len() == 96) && len == s@.len() && expected@ =~= seq![
                    24usize,
                    48usize,
                    72usize,
                    96usize,
                ],
                Err(IdError::InvalidSegment { start, end }) => (s@.len() == 24 || s@.len() == 48
                    || s@.len() == 72 || s@.len() == 96) && is_first_bad_seg(
                    s@,
                    start,
                    end,
                    s@.len() as int / 24,
                ),
                Err(IdError::MissingField { .. }) => false,
            },
            r is Ok <==> parse_entity_id_spec(s@) is Some,
    {
        let n = s.unicode_len();
        if !(n == 24 || n == 48 || n == 72 || n == 96) {
            return Err(
                IdError::InvalidLength { len: n, expected: vec![24, 48, 72, 96] },
            );
        }
        let nsegs = n / 24;
        let mut vals: Vec<u128> = Vec::new();
        let mut k: usize = 0;
        while k < nsegs
            invariant
                nsegs == s@.len() as int / 24,
                n == s@.len(),
                n == 24 || n == 48 || n == 72 || n == 96,
                k <= nsegs,
                vals@.len() == k,
                forall|j: int| 0 <= j < k ==> #[trigger] seg_hex(s@, j),
                forall|j: int|
                    0 <= j < k ==> #[trigger] vals@[j] as nat == seg_val(s@, j) && vals@[j]
                        < pow16(24),
            decreases nsegs - k,
        {
            proof {
                assert(seg_at(s@, k as int) =~= s@.subrange(24 * k as int, 24 * k as int + 24));
            }
            match parse_hex24_at(s, 24 * k) {
                None => {
                    let start: usize = 24 * k;
                    let end: usize = start + 24;
                    proof {
                        assert((24 * (k as int)) % 24 == 0 && (24 * (k as int)) / 24
                            == k as int) by (nonlinear_arith);
                        assert(start as int == 24 * (k as int));
                        assert(!all_hex(s@.subrange(24 * (k as int), 24 * (k as int) + 24)));
                        assert(!seg_hex(s@, k as int));
                        assert(is_first_bad_seg(s@, start, end, s@.len() as int / 24));
                        assert(parse_entity_id_spec(s@) is None);
                    }
                    return Err(IdError::InvalidSegment { start, end });
                },
                Some(v) => {
                    vals.push(v);
                },
            }
            k = k + 1;
        }
        let cid = seg_field(&vals, 0);
        let oid = seg_field(&vals, 1);
        let iid = seg_field(&vals, 2);
        let id = seg_field(&vals, 3);
        Ok(EntityId { id, cid, oid, iid })
    }

    /// Set the customer ancestor.
    pub fn with_customer(self, cid: ObjectId) -> (r: Self)
        ensures
            r == (EntityId { cid: Some(cid), ..self }),
    {
        EntityId { cid: Some(cid), ..self }
    }

    /// The bare customer reference carried in the `id` field, when present.
    pub fn as_customer_id(&self) -> (r: Option<CustomerId>)
        ensures
            r == match self.id {
                Some(id) => Some(CustomerId { id }),
                None => None::<CustomerId>,
            },
    {
        match self.id {
            Some(id) => Some(CustomerId { id }),
            None => None,
        }
    }

    /// The organization identity `(cid, id)`, when both fields are present.
    pub fn as_organization_id(&self) -> (r: Option<OrganizationId>)
        ensures
            r == match (self.cid, self.id) {
                (Some(cid), Some(id)) => Some(CustomerResourceId { cid, id }),
                _ => None::<OrganizationId>,
            },
    {
        match (self.cid, self.id) {
            (Some(cid), Some(id)) => Some(CustomerResourceId { cid, id }),
            _ => None,
        }
    }

    /// The organization-unit identity rooted at `(cid, id)`, through the
    /// organization ancestor when one is present.
    pub fn as_organization_unit_id(&self) -> (r: Option<OrganizationUnitId>)
        ensures
            r == match (self.cid, self.oid, self.id) {
                (Some(cid), Some(oid), Some(id)) => Some(
                    OrganizationUnitId::Organization(OrganizationResourceId { cid, oid, id }),
                ),
                (Some(cid), None, Some(id)) => Some(
                    OrganizationUnitId::Customer(CustomerResourceId { cid, id }),
                ),
                _ => None::<OrganizationUnitId>,
            },
    {
        match (self.cid, self.oid, self.id) {
            (Some(cid), Some(oid), Some(id)) => Some(
                OrganizationUnitId::Organization(OrganizationResourceId { cid, oid, id }),
            ),
            (Some(cid), None, Some(id)) => Some(
                OrganizationUnitId::Customer(CustomerResourceId { cid, id }),
            ),
            _ => None,
        }
    }

    /// The bare customer reference, absent fields defaulting to zero.
    pub fn to_customer_id(&self) -> (r: CustomerId)
        ensures
            r.id == self.id.unwrap_or(ObjectId { value: 0 }),
    {
        CustomerId { id: self.id.unwrap_or(ObjectId { value: 0 }) }
    }

    /// The organization identity, absent fields defaulting to zero.
    pub fn to_organization_id(&self) -> (r: OrganizationId)
        ensures
            r.cid == self.cid.unwrap_or(ObjectId { value: 0 }),
            r.id == self.id.unwrap_or(ObjectId { value: 0 }),
    {
        CustomerResourceId {
            cid: self.cid.unwrap_or(ObjectId { value: 0 }),
            id: self.id.unwrap_or(ObjectId { value: 0 }),
        }
    }

    /// The institution identity, absent fields defaulting to zero.
    pub fn to_institution_id(&self) -> (r: InstitutionId)
        ensures
            r.cid == self.cid.unwrap_or(ObjectId { value: 0 }),
            r.oid == self.oid.unwrap_or(ObjectId { value: 0 }),
            r.id == self.id.unwrap_or(ObjectId { value: 0 }),
    {
        OrganizationResourceId {
            cid: self.cid.unwrap_or(ObjectId { value: 0 }),
            oid: self.oid.unwrap_or(ObjectId { value: 0 }),
            id: self.id.unwrap_or(ObjectId { value: 0 }),
        }
    }

    /// The institution identity `(cid, oid, id)`, when all three are present.
    pub fn as_institution_id(&self) -> (r: Option<InstitutionId>)
        ensures
            r == match (self.cid, self.oid, self.id) {
                (Some(cid), Some(oid), Some(id)) => Some(
                    OrganizationResourceId { cid, oid, id },
                ),
                _ => None::<InstitutionId>,
            },
    {
        match (self.cid, self.oid, self.id) {
            (Some(cid), Some(oid), Some(id)) => Some(OrganizationResourceId { cid, oid, id }),
            _ => None,
        }
    }
}

impl Default for EntityId {
    /// The fully-absent loose identifier.
    fn default() -> (r: Self)
        ensures
            r == (EntityId { id: None, cid: None, oid: None, iid: None }),
    {
        EntityId { id: None, cid: None, oid: None, iid: None }
    }
}

/// Optional field read from the decoded segment values, absent beyond the
/// parsed length and for the zero sentinel.
fn seg_field(vals: &Vec<u128>, k: usize) -> (r: Option<ObjectId>)
    requires
        forall|j: int| 0 <= j < vals@.len() ==> #[trigger] vals@[j] < pow16(24),
    ensures
        r == if k < vals@.len() && vals@[k as int] != 0 {
            Some(ObjectId { value: vals@[k as int] })
        } else {
            None::<ObjectId>
        },
{
    if k < vals.len() && vals[k] != 0 {
        Some(ObjectId { value: vals[k] })
    } else {
        None
    }
}

/// Encoding then parsing gives back every well-formed [`EntityId`].
pub proof fn lemma_entity_id_roundtrip(x: EntityId)
    requires
        x.wf(),
    ensures
        x.encoding().len() == 96,
        parse_entity_id_spec(x.encoding()) == Some(x),
{
    lemma_opt_seg_decodes(x.cid);
    lemma_opt_seg_decodes(x.oid);
    lemma_opt_seg_decodes(x.iid);
    lemma_opt_seg_decodes(x.id);
    let e = x.encoding();
    assert(seg_at(e, 0) =~= opt_seg(x.cid));
    assert(seg_at(e, 1) =~= opt_seg(x.oid));
    assert(seg_at(e, 2) =~= opt_seg(x.iid));
    assert(seg_at(e, 3) =~= opt_seg(x.id));
    assert forall|k: int| 0 <= k < 4 implies seg_hex(e, k) by {
        if k == 0 {
        } else if k == 1 {
        } else if k == 2 {
        }
    }
}

/// An optional field's segment decodes back to the field.
proof fn lemma_opt_seg_decodes(o: Option<ObjectId>)
    requires
        opt_wf(o),
    ensures
        opt_seg(o).len() == 24,
        all_hex(opt_seg(o)),
        match o {
            Some(x) => hex_value(opt_seg(o)) == x.value as nat && hex_value(opt_seg(o)) != 0,
            None => hex_value(opt_seg(o)) == 0,
        },
{
    match o {
        Some(x) => {
            lemma_seg_decodes(x);
        },
        None => {
            lemma_hex_seq_len(0, 24);
            lemma_hex_value_hex_seq(0, 24);
            crate::hex::lemma_pow16_pos(24);
        },
    }
}

/// The identity of an Organization Unit: rooted at either a Customer or an
/// Organization.
#[derive(Clone, Copy, Debug, PartialEq, Eq, Structural, Hash, PartialOrd, Ord)]
pub enum OrganizationUnitId {
    Customer(CustomerResourceId),
    Organization(OrganizationResourceId),
}

/// What a valid 48- or 72-character string for [`OrganizationUnitId`]
/// decodes to: the length selects the variant.
pub open spec fn parse_organization_unit_id_spec(s: Seq<char>) -> Option<OrganizationUnitId> {
    if s.len() == 48 {
        match parse_customer_resource_id_spec(s) {
            Some(x) => Some(OrganizationUnitId::Customer(x)),
            None => None,
        }
    } else if s.len() == 72 {
        match parse_organization_resource_id_spec(s) {
            Some(x) => Some(OrganizationUnitId::Organization(x)),
            None => None,
        }
    } else {
        None
    }
}

impl OrganizationUnitId {
    pub open spec fn wf(self) -> bool {
        match self {
            OrganizationUnitId::Customer(x) => x.wf(),
            OrganizationUnitId::Organization(x) => x.wf(),
        }
    }

    /// Canonical wire encoding: 48 or 72 characters, by variant.
    pub open spec fn encoding(self) -> Seq<char> {
        match self {
            OrganizationUnitId::Customer(x) => x.encoding(),
            OrganizationUnitId::Organization(x) => x.encoding(),
        }
    }

    pub fn encode(&self) -> (r: String)
        ensures
            r@ == self.encoding(),
    {
        match self {
            OrganizationUnitId::Customer(x) => x.encode(),
            OrganizationUnitId::Organization(x) => x.encode(),
        }
    }

    /// Parse the 48- or 72-character wire form; any other length is rejected.
    pub fn parse(s: &str) -> (r: Result<Self, IdError>)
        ensures
            match r {
                Ok(x) => parse_organization_unit_id_spec(s@) == Some(x),
                Err(IdError::InvalidLength { len, expected }) => s@.len() != 48 && s@.len() != 72
                    && len == s@.len() && expected@ =~= seq![48usize, 72usize],
                Err(IdError::InvalidSegment { start, end }) => (s@.len() == 48 || s@.len() == 72)
                    && is_first_bad_seg(s@, start, end, s@.len() as int / 24),
                Err(IdError::MissingField { .. }) => false,
            },
            r is Ok <==> parse_organization_unit_id_spec(s@) is Some,
    {
        let n = s.unicode_len();
        if n == 48 {
            match CustomerResourceId::parse(s) {
                Ok(x) => Ok(OrganizationUnitId::Customer(x)),
                Err(e) => Err(e),
            }
        } else if n == 72 {
            match OrganizationResourceId::parse(s) {
                Ok(x) => Ok(OrganizationUnitId::Organization(x)),
                Err(e) => Err(e),
            }
        } else {
            Err(IdError::InvalidLength { len: n, expected: vec![48, 72] })
        }
    }

    /// Build the unit identity from a loose identifier: the unit's own id in
    /// `id`, rooted at the organization ancestor when one is present.
    pub fn try_from_entity(value: &EntityId) -> (r: Result<Self, IdError>)
        ensures
            match r {
                Ok(x) => value.cid is Some && value.id is Some && x == match value.oid {
                    Some(oid) => OrganizationUnitId::Organization(
                        OrganizationResourceId {
                            cid: value.cid->0,
                            oid,
                            id: value.id->0,
                        },
                    ),
                    None => OrganizationUnitId::Customer(
                        CustomerResourceId { cid: value.cid->0, id: value.id->0 },
                    ),
                },
                Err(IdError::MissingField { field }) => (field == MissingFieldName::Cid
                    && value.cid is None) || (field == MissingFieldName::Id && value.cid is Some
                    && value.id is None),
                Err(_) => false,
            },
            r is Ok <==> value.cid is Some && value.id is Some,
    {
        let cid = match value.cid {
            Some(cid) => cid,
            None => {
                return Err(IdError::MissingField { field: MissingFieldName::Cid });
            },
        };
        let id = match value.id {
            Some(id) => id,
            None => {
                return Err(IdError::MissingField { field: MissingFieldName::Id });
            },
        };
        match value.oid {
            Some(oid) => Ok(
                OrganizationUnitId::Organization(OrganizationResourceId { cid, oid, id }),
            ),
            None => Ok(OrganizationUnitId::Customer(CustomerResourceId { cid, id })),
        }
    }
}

/// Encoding then parsing gives back every well-formed [`OrganizationUnitId`].
pub proof fn lemma_organization_unit_id_roundtrip(x: OrganizationUnitId)
    requires
        x.wf(),
    ensures
        x.encoding().len() == 48 || x.encoding().len() == 72,
        parse_organization_unit_id_spec(x.encoding()) == Some(x),
{
    match x {
        OrganizationUnitId::Customer(y) => {
            lemma_customer_resource_id_roundtrip(y);
        },
        OrganizationUnitId::Organization(y) => {
            lemma_organization_resource_id_roundtrip(y);
        },
    }
}

/// A resource owned by one Organization Unit: the unit's ancestor chain
/// (`cid`, optional `oid`, unit id `uid`) followed by the resource's own id.
#[derive(Clone, Copy, Debug, PartialEq, Eq, Structural, Hash, PartialOrd, Ord)]
pub struct OrganizationUnitResourceId {
    pub cid: ObjectId,
    pub oid: Option<ObjectId>,
    pub uid: ObjectId,
    pub id: ObjectId,
}

/// What a valid 72- or 96-character string for [`OrganizationUnitResourceId`]
/// decodes to: the length says whether an organization ancestor is present.
pub open spec fn parse_organization_unit_resource_id_spec(s: Seq<char>) -> Option<
    OrganizationUnitResourceId,
> {
    if s.len() == 72 && seg_hex(s, 0) && seg_hex(s, 1) && seg_hex(s, 2) {
        Some(
            OrganizationUnitResourceId {
                cid: seg_id(s, 0),
                oid: None,
                uid: seg_id(s, 1),
                id: seg_id(s, 2),
            },
        )
    } else if s.len() == 96 && seg_hex(s, 0) && seg_hex(s, 1) && seg_hex(s, 2) && seg_hex(s, 3) {
        Some(
            OrganizationUnitResourceId {
                cid: seg_id(s, 0),
                oid: Some(seg_id(s, 1)),
                uid: seg_id(s, 2),
                id: seg_id(s, 3),
            },
        )
    } else {
        None
    }
}

impl OrganizationUnitResourceId {
    pub open spec fn wf(self) -> bool {
        self.cid.wf() && (match self.oid {
            Some(o) => o.wf(),
            None => true,
        }) && self.uid.wf() && self.id.wf()
    }

    /// Canonical wire encoding: 72 or 96 characters, by ancestor shape.
    pub open spec fn encoding(self) -> Seq<char> {
        match self.oid {
            Some(oid) => self.cid.seg() + oid.seg() + self.uid.seg() + self.id.seg(),
            None => self.cid.seg() + self.uid.seg() + self.id.seg(),
        }
    }

    pub fn encode(&self) -> (r: String)
        ensures
            r@ == self.encoding(),
    {
        let mut out = String::new();
        append_hex24(&mut out, self.cid.value);
        match self.oid {
            Some(oid) => append_hex24(&mut out, oid.value),
            None => (),
        }
        append_hex24(&mut out, self.uid.value);
        append_hex24(&mut out, self.id.value);
        out
    }

    pub fn to_entity_id(&self) -> (r: EntityId)
        ensures
            r == (EntityId {
                id: Some(self.id),
                cid: Some(self.cid),
                oid: self.oid,
                iid: Some(self.uid),
            }),
    {
        EntityId { id: Some(self.id), cid: Some(self.cid), oid: self.oid, iid: Some(self.uid) }
    }

    /// Parse the 72- or 96-character wire form; any other length is rejected.
    pub fn parse(s: &str) -> (r: Result<Self, IdError>)
        ensures
            match r {
                Ok(x) => parse_organization_unit_resource_id_spec(s@) == Some(x),
                Err(IdError::InvalidLength { len, expected }) => s@.len() != 72 && s@.len() != 96
                    && len == s@.len() && expected@ =~= seq![72usize, 96usize],
                Err(IdError::InvalidSegment { start, end }) => (s@.len() == 72 || s@.len() == 96)
                    && is_first_bad_seg(s@, start, end, s@.len() as int / 24),
                Err(IdError::MissingField { .. }) => false,
            },
            r is Ok <==> parse_organization_unit_resource_id_spec(s@) is Some,
    {
        let n = s.unicode_len();
        if n == 72 {
            match OrganizationResourceId::parse(s) {
                Ok(x) => Ok(
                    OrganizationUnitResourceId { cid: x.cid, oid: None, uid: x.oid, id: x.id },
                ),
                Err(e) => Err(e),
            }
        } else if n == 96 {
            match InstitutionResourceId::parse(s) {
                Ok(x) => Ok(
                    OrganizationUnitResourceId {
                        cid: x.cid,
                        oid: Some(x.oid),
                        uid: x.iid,
                        id: x.id,
                    },
                ),
                Err(e) => Err(e),
            }
        } else {
            Err(IdError::InvalidLength { len: n, expected: vec![72, 96] })
        }
    }
}

/// Encoding then parsing gives back every well-formed
/// [`OrganizationUnitResourceId`].
pub proof fn lemma_organization_unit_resource_id_roundtrip(x: OrganizationUnitResourceId)
    requires
        x.wf(),
    ensures
        x.encoding().len() == 72 || x.encoding().len() == 96,
        parse_organization_unit_resource_id_spec(x.encoding()) == Some(x),
{
    match x.oid {
        Some(oid) => {
            let y = InstitutionResourceId { cid: x.cid, oid, iid: x.uid, id: x.id };
            lemma_institution_resource_id_roundtrip(y);
            assert(x.encoding() == y.encoding());
        },
        None => {
            let y = OrganizationResourceId { cid: x.cid, oid: x.uid, id: x.id };
            lemma_organization_resource_id_roundtrip(y);
            assert(x.encoding() == y.encoding());
        },
    }
}

/// Level-tagged wrapper for a customer identifier: prevents mixing levels at
/// a call site.
#[derive(Clone, Copy, Debug, PartialEq, Eq, Structural, Hash, PartialOrd, Ord)]
pub struct Cid {
    pub cid: ObjectId,
}

impl Cid {
    pub open spec fn id_spec(self) -> ObjectId {
        self.cid
    }

    pub fn new(cid: ObjectId) -> (r: Self)
        ensures
            r.id_spec() == cid,
    {
        Cid { cid }
    }

    pub fn as_id(&self) -> (r: ObjectId)
        ensures
            r == self.id_spec(),
    {
        self.cid
    }
}

/// Level-tagged wrapper for an organization identifier.
#[derive(Clone, Copy, Debug, PartialEq, Eq, Structural, Hash, PartialOrd, Ord)]
pub struct Oid {
    pub oid: ObjectId,
}

impl Oid {
    pub open spec fn id_spec(self) -> ObjectId {
        self.oid
    }

    pub fn new(oid: ObjectId) -> (r: Self)
        ensures
            r.id_spec() == oid,
    {
        Oid { oid }
    }

    pub fn as_id(&self) -> (r: ObjectId)
        ensures
            r == self.id_spec(),
    {
        self.oid
    }
}

/// Level-tagged wrapper for an organization-unit identifier.
#[derive(Clone, Copy, Debug, PartialEq, Eq, Structural, Hash, PartialOrd, Ord)]
pub struct Uid {
    pub uid: ObjectId,
}

impl Uid {
    pub open spec fn id_spec(self) -> ObjectId {
        self.uid
    }

    pub fn new(uid: ObjectId) -> (r: Self)
        ensures
            r.id_spec() == uid,
    {
        Uid { uid }
    }

    pub fn as_id(&self) -> (r: ObjectId)
        ensures
            r == self.id_spec(),
    {
        self.uid
    }
}

/// Level-tagged wrapper for an institution identifier.
#[derive(Clone, Copy, Debug, PartialEq, Eq, Structural, Hash, PartialOrd, Ord)]
pub struct Iid {
    pub iid: ObjectId,
}

impl Iid {
    pub open spec fn id_spec(self) -> ObjectId {
        self.iid
    }

    pub fn new(iid: ObjectId) -> (r: Self)
        ensures
            r.id_spec() == iid,
    {
        Iid { iid }
    }

    pub fn as_id(&self) -> (r: ObjectId)
        ensures
            r == self.id_spec(),
    {
        self.iid
    }
}

/// A customer reference with its field mandatory, for task boundaries.
#[derive(Clone, Copy, Debug, PartialEq, Eq, Structural, Hash, PartialOrd, Ord)]
pub struct StrictCustomerId {
    pub cid: Cid,
}

impl StrictCustomerId {
    pub open spec fn cid_spec(self) -> ObjectId {
        self.cid.id_spec()
    }

    pub open spec fn wf(self) -> bool {
        self.cid.id_spec().wf()
    }

    pub fn new(cid: Cid) -> (r: Self)
        ensures
            r.cid_spec() == cid.id_spec(),
    {
        StrictCustomerId { cid }
    }

    pub fn as_cid(&self) -> (r: Cid)
        ensures
            r.id_spec() == self.cid_spec(),
    {
        self.cid
    }

    /// Canonical wire encoding: 24 characters.
    pub open spec fn encoding(self) -> Seq<char> {
        self.cid_spec().seg()
    }

    pub fn encode(&self) -> (r: String)
        ensures
            r@ == self.encoding(),
    {
        self.cid.as_id().to_hex()
    }

    /// The loose identifier carrying the customer's own id in `id`.
    pub fn to_entity_id(&self) -> (r: EntityId)
        ensures
            r == (EntityId { id: Some(self.cid_spec()), cid: None, oid: None, iid: None }),
    {
        EntityId { id: Some(self.cid.as_id()), cid: None, oid: None, iid: None }
    }
}

/// An organization reference with every ancestor field mandatory.
#[derive(Clone, Copy, Debug, PartialEq, Eq, Structural, Hash, PartialOrd, Ord)]
pub struct StrictOrganizationId {
    pub cid: Cid,
    pub oid: Oid,
}

impl StrictOrganizationId {
    pub open spec fn cid_spec(self) -> ObjectId {
        self.cid.id_spec()
    }

    pub open spec fn oid_spec(self) -> ObjectId {
        self.oid.id_spec()
    }

    pub open spec fn wf(self) -> bool {
        self.cid_spec().wf() && self.oid_spec().wf()
    }

    pub fn new(cid: Cid, oid: Oid) -> (r: Self)
        ensures
            r.cid_spec() == cid.id_spec(),
            r.oid_spec() == oid.id_spec(),
    {
        StrictOrganizationId { cid, oid }
    }

    pub fn as_cid(&self) -> (r: Cid)
        ensures
            r.id_spec() == self.cid_spec(),
    {
        self.cid
    }

    pub fn as_oid(&self) -> (r: Oid)
        ensures
            r.id_spec() == self.oid_spec(),
    {
        self.oid
    }

    /// Canonical wire encoding: ancestor first, 48 characters.
    pub open spec fn encoding(self) -> Seq<char> {
        self.cid_spec().seg() + self.oid_spec().seg()
    }

    pub fn encode(&self) -> (r: String)
        ensures
            r@ == self.encoding(),
    {
        let mut out = String::new();
        append_hex24(&mut out, self.cid.as_id().value);
        append_hex24(&mut out, self.oid.as_id().value);
        out
    }

    /// The loose identifier carrying the organization's own id in `id`.
    pub fn to_entity_id(&self) -> (r: EntityId)
        ensures
            r == (EntityId {
                id: Some(self.oid_spec()),
                cid: Some(self.cid_spec()),
                oid: None,
                iid: None,
            }),
    {
        EntityId {
            id: Some(self.oid.as_id()),
            cid: Some(self.cid.as_id()),
            oid: None,
            iid: None,
        }
    }

    /// The same identity as a customer-scoped resource id.
    pub fn to_customer_resource_id(&self) -> (r: CustomerResourceId)
        ensures
            r == (CustomerResourceId { cid: self.cid_spec(), id: self.oid_spec() }),
    {
        CustomerResourceId { cid: self.cid.as_id(), id: self.oid.as_id() }
    }
}

/// An institution reference with every ancestor field mandatory.
#[derive(Clone, Copy, Debug, PartialEq, Eq, Structural, Hash, PartialOrd, Ord)]
pub struct StrictInstitutionId {
    pub cid: Cid,
    pub oid: Oid,
    pub iid: Iid,
}

impl StrictInstitutionId {
    pub open spec fn cid_spec(self) -> ObjectId {
        self.cid.id_spec()
    }

    pub open spec fn oid_spec(self) -> ObjectId {
        self.oid.id_spec()
    }

    pub open spec fn iid_spec(self) -> ObjectId {
        self.iid.id_spec()
    }

    pub open spec fn wf(self) -> bool {
        self.cid_spec().wf() && self.oid_spec().wf() && self.iid_spec().wf()
    }

    pub fn new(cid: Cid, oid: Oid, iid: Iid) -> (r: Self)
        ensures
            r.cid_spec() == cid.id_spec(),
            r.oid_spec() == oid.id_spec(),
            r.iid_spec() == iid.id_spec(),
    {
        StrictInstitutionId { cid, oid, iid }
    }

    pub fn as_cid(&self) -> (r: Cid)
        ensures
            r.id_spec() == self.cid_spec(),
    {
        self.cid
    }

    pub fn as_oid(&self) -> (r: Oid)
        ensures
            r.id_spec() == self.oid_spec(),
    {
        self.oid
    }

    pub fn as_iid(&self) -> (r: Iid)
        ensures
            r.id_spec() == self.iid_spec(),
    {
        self.iid
    }

    /// Canonical wire encoding: ancestors first, 72 characters.
    pub open spec fn encoding(self) -> Seq<char> {
        self.cid_spec().seg() + self.oid_spec().seg() + self.iid_spec().seg()
    }

    pub fn encode(&self) -> (r: String)
        ensures
            r@ == self.encoding(),
    {
        let mut out = String::new();
        append_hex24(&mut out, self.cid.as_id().value);
        append_hex24(&mut out, self.oid.as_id().value);
        append_hex24(&mut out, self.iid.as_id().value);
        out
    }

    /// The loose identifier carrying the institution's own id in `id`.
    pub fn to_entity_id(&self) -> (r: EntityId)
        ensures
            r == (EntityId {
                id: Some(self.iid_spec()),
                cid: Some(self.cid_spec()),
                oid: Some(self.oid_spec()),
                iid: None,
            }),
    {
        EntityId {
            id: Some(self.iid.as_id()),
            cid: Some(self.cid.as_id()),
            oid: Some(self.oid.as_id()),
            iid: None,
        }
    }

    /// The same identity as an organization-scoped resource id.
    pub fn to_organization_resource_id(&self) -> (r: OrganizationResourceId)
        ensures
            r == (OrganizationResourceId {
                cid: self.cid_spec(),
                oid: self.oid_spec(),
                id: self.iid_spec(),
            }),
    {
        OrganizationResourceId {
            cid: self.cid.as_id(),
            oid: self.oid.as_id(),
            id: self.iid.as_id(),
        }
    }
}

/// An organization-unit reference with its ancestors mandatory: the root is a
/// Customer, with or without an Organization in between.
#[derive(Clone, Copy, Debug, PartialEq, Eq, Structural, Hash, PartialOrd, Ord)]
pub struct StrictOrganizationUnitId {
    pub cid: Cid,
    pub oid: Option<Oid>,
    pub uid: Uid,
}

impl StrictOrganizationUnitId {
    pub open spec fn cid_spec(self) -> ObjectId {
        self.cid.id_spec()
    }

    pub open spec fn oid_spec(self) -> Option<ObjectId> {
        match self.oid {
            Some(o) => Some(o.id_spec()),
            None => None,
        }
    }

    pub open spec fn uid_spec(self) -> ObjectId {
        self.uid.id_spec()
    }

    pub open spec fn wf(self) -> bool {
        self.cid_spec().wf() && (match self.oid_spec() {
            Some(o) => o.wf(),
            None => true,
        }) && self.uid_spec().wf()
    }

    pub fn new(cid: Cid, oid: Option<Oid>, uid: Uid) -> (r: Self)
        ensures
            r == (StrictOrganizationUnitId { cid, oid, uid }),
            r.cid_spec() == cid.id_spec(),
            r.uid_spec() == uid.id_spec(),
    {
        StrictOrganizationUnitId { cid, oid, uid }
    }

    pub fn as_cid(&self) -> (r: Cid)
        ensures
            r.id_spec() == self.cid_spec(),
    {
        self.cid
    }

    pub fn as_oid(&self) -> (r: Option<Oid>)
        ensures
            r == self.oid,
    {
        self.oid
    }

    pub fn as_uid(&self) -> (r: Uid)
        ensures
            r.id_spec() == self.uid_spec(),
    {
        self.uid
    }

    /// Canonical wire encoding: 48 or 72 characters, by ancestor shape.
    pub open spec fn encoding(self) -> Seq<char> {
        match self.oid_spec() {
            Some(oid) => self.cid_spec().seg() + oid.seg() + self.uid_spec().seg(),
            None => self.cid_spec().seg() + self.uid_spec().seg(),
        }
    }

    pub fn encode(&self) -> (r: String)
        ensures
            r@ == self.encoding(),
    {
        let mut out = String::new();
        append_hex24(&mut out, self.cid.as_id().value);
        match self.oid {
            Some(oid) => append_hex24(&mut out, oid.as_id().value),
            None => (),
        }
        append_hex24(&mut out, self.uid.as_id().value);
        out
    }

    /// The unit identity this strict reference names.
    pub fn to_organization_unit_id(&self) -> (r: OrganizationUnitId)
        ensures
            r == match self.oid_spec() {
                Some(oid) => OrganizationUnitId::Organization(
                    OrganizationResourceId { cid: self.cid_spec(), oid, id: self.uid_spec() },
                ),
                None => OrganizationUnitId::Customer(
                    CustomerResourceId { cid: self.cid_spec(), id: self.uid_spec() },
                ),
            },
    {
        match self.oid {
            Some(oid) => OrganizationUnitId::Organization(
                OrganizationResourceId {
                    cid: self.cid.as_id(),
                    oid: oid.as_id(),
                    id: self.uid.as_id(),
                },
            ),
            None => OrganizationUnitId::Customer(
                CustomerResourceId { cid: self.cid.as_id(), id: self.uid.as_id() },
            ),
        }
    }

    /// Build the strict unit reference from a loose identifier: the unit's
    /// own id must sit in `id` and the customer ancestor must be present.
    pub fn try_from_entity(value: &EntityId) -> (r: Result<Self, IdError>)
        ensures
            match r {
                Ok(x) => value.cid is Some && value.id is Some && x.cid_spec() == value.cid->0
                    && x.oid_spec() == value.oid && x.uid_spec() == value.id->0,
                Err(IdError::MissingField { field }) => (field == MissingFieldName::Cid
                    && value.cid is None) || (field == MissingFieldName::Id && value.cid is Some
                    && value.id is None),
                Err(_) => false,
            },
            r is Ok <==> value.cid is Some && value.id is Some,
    {
        let cid = match value.cid {
            Some(cid) => cid,
            None => {
                return Err(IdError::MissingField { field: MissingFieldName::Cid });
            },
        };
        let uid = match value.id {
            Some(id) => id,
            None => {
                return Err(IdError::MissingField { field: MissingFieldName::Id });
            },
        };
        let oid = match value.oid {
            Some(oid) => Some(Oid::new(oid)),
            None => None,
        };
        Ok(StrictOrganizationUnitId { cid: Cid::new(cid), oid, uid: Uid::new(uid) })
    }
}

/// One Organization Unit membership entry: an institution named with its full
/// ancestor chain.
#[derive(Clone, Copy, Debug, PartialEq, Eq, Structural, Hash, PartialOrd, Ord)]
pub struct MemberId {
    pub cid: ObjectId,
    pub oid: ObjectId,
    pub iid: ObjectId,
}

impl Default for MemberId {
    /// All-zero membership entry.
    fn default() -> (r: Self)
        ensures
            r == (MemberId {
                cid: ObjectId { value: 0 },
                oid: ObjectId { value: 0 },
                iid: ObjectId { value: 0 },
            }),
    {
        MemberId {
            cid: ObjectId { value: 0 },
            oid: ObjectId { value: 0 },
            iid: ObjectId { value: 0 },
        }
    }
}

/// A relational-store row identifier.
#[derive(Clone, Copy, Debug, PartialEq, Eq, Structural, Hash, PartialOrd, Ord)]
pub struct InfraId {
    pub value: i64,
}

impl InfraId {
    pub fn new(value: i64) -> (r: Self)
        ensures
            r.value == value,
    {
        InfraId { value }
    }

    pub fn as_i64(&self) -> (r: i64)
        ensures
            r == self.value,
    {
        self.value
    }
}

/// Identifier lists as they travel with cleanup tasks.
pub type StrictCustomerIds = Vec<StrictCustomerId>;

pub type StrictOrganizationIds = Vec<StrictOrganizationId>;

pub type StrictInstitutionIds = Vec<StrictInstitutionId>;

pub type StrictOrganizationUnitIds = Vec<StrictOrganizationUnitId>;

pub type StrictEntityIds = Vec<StrictEntityId>;

pub type EntityIds = Vec<EntityId>;

/// Encoding then parsing gives back every well-formed [`StrictEntityId`].
pub proof fn lemma_strict_entity_id_roundtrip(x: StrictEntityId)
    requires
        x.wf(),
    ensures
        x.encoding().len() == 96,
        parse_strict_entity_id_spec(x.encoding()) == Some(x),
{
    lemma_seg_decodes(x.cid);
    lemma_seg_decodes(x.oid);
    lemma_seg_decodes(x.iid);
    lemma_seg_decodes(x.id);
    let e = x.encoding();
    assert(seg_at(e, 0) =~= x.cid.seg());
    assert(seg_at(e, 1) =~= x.oid.seg());
    assert(seg_at(e, 2) =~= x.iid.seg());
    assert(seg_at(e, 3) =~= x.id.seg());
}

} // verus!
