//! Identifiers: `uuid` values carried as their 128-bit numbers.

use vstd::prelude::*;
use crate::text::{blank, text_eq};

verus! {

/// The id that stands for "none chosen" (the nil UUID, all zero bits).
pub const NIL_ID: u128 = 0;

/// The number of the UUID that `uuid::Uuid::parse_str` reads from `s`, or nothing when it
/// refuses `s`.
pub uninterp spec fn parsed_uuid(s: Seq<char>) -> Option<u128>;

/// Calls `uuid::Uuid::parse_str` and takes the UUID's number (`as_u128`). Which strings it
/// accepts (simple, hyphenated, URN and braced forms of 32 hex digits) is uuid's grammar, a
/// function of `s` alone that is named here (`parsed_uuid`) and not spelled out.
#[verifier::external_body]
pub(crate) fn parse_uuid(s: &str) -> (r: Option<u128>)
    ensures
        r == parsed_uuid(s@),
{
    match uuid::Uuid::parse_str(s) {
        Ok(u) => Some(u.as_u128()),
        Err(_) => None,
    }
}

/// An optional id field: none when blank, otherwise what the text reads as (none when it
/// is no UUID).
pub open spec fn optional_id_spec(s: Seq<char>) -> Option<u128> {
    if blank(s) {
        None
    } else {
        parsed_uuid(s)
    }
}

/// Reads an optional id field, such as a portfolio's organization selector.
pub fn optional_id(s: &str) -> (r: Option<u128>)
    ensures
        r == optional_id_spec(s@),
{
    if crate::text::is_blank(s) {
        None
    } else {
        parse_uuid(s)
    }
}

/// The organization an organization selector names: none for its `none` option, otherwise
/// what its value reads as (none when it is no UUID).
pub open spec fn org_choice_spec(v: Seq<char>) -> Option<u128> {
    if v == "none"@ {
        None
    } else {
        parsed_uuid(v)
    }
}

/// Reads the value of an organization selector.
pub fn org_choice(v: &str) -> (r: Option<u128>)
    ensures
        r == org_choice_spec(v@),
{
    if text_eq(v, "none") {
        None
    } else {
        parse_uuid(v)
    }
}

} // verus!
