//! Calendar dates typed as `YYYY-MM-DD`, read through `chrono` and carried as day numbers
//! (days since the start of the common era, day 1 being 0001-01-01).

use vstd::prelude::*;
use crate::text::{blank, chars_of, is_blank, string_of, trim_chars, trim_spec};

verus! {

/// The day number of the date that `chrono::NaiveDate::parse_from_str(s, "%Y-%m-%d")` reads
/// from `s`, or nothing when it refuses `s`.
pub uninterp spec fn parsed_ymd(s: Seq<char>) -> Option<i32>;

/// Calls `chrono::NaiveDate::parse_from_str` with the format `%Y-%m-%d` and takes the day
/// number of the date it reads. Which strings it accepts is chrono's format grammar, a
/// function of `s` alone that is named here (`parsed_ymd`) and not spelled out.
#[verifier::external_body]
pub(crate) fn parse_ymd(s: &str) -> (r: Option<i32>)
    ensures
        r == parsed_ymd(s@),
{
    match chrono::NaiveDate::parse_from_str(s, "%Y-%m-%d") {
        Ok(d) => Some(chrono::Datelike::num_days_from_ce(&d)),
        Err(_) => None,
    }
}

/// The date that a date input holds: none when it is blank, otherwise what its trimmed
/// text reads as.
pub open spec fn input_date_spec(s: Seq<char>) -> Option<i32> {
    if blank(s) {
        None
    } else {
        parsed_ymd(trim_spec(s))
    }
}

/// Reads a date input (`YYYY-MM-DD`) as a day number; a blank or unreadable input gives none.
pub fn input_to_date(s: &str) -> (r: Option<i32>)
    ensures
        r == input_date_spec(s@),
{
    if is_blank(s) {
        return None;
    }
    let t = string_of(&trim_chars(&chars_of(s)));
    parse_ymd(t.as_str())
}

} // verus!
