//! Calendar dates as they occur in stored line items: ISO-8601 text that is
//! resolved to a day number before any arithmetic is done on it.

use vstd::prelude::*;

verus! {

/// The day number that the calendar-date text `s` denotes, counted from the
/// calendar's epoch, or `None` where `s` is not a well-formed calendar date.
pub uninterp spec fn day_number_of(s: Seq<char>) -> Option<i32>;

/// Relies on `chrono::NaiveDate`: parsing an ISO-8601 calendar date and
/// counting its days from the common era depend on the text alone.
#[verifier::external_body]
pub(crate) fn parse_date_days(s: &str) -> (r: Option<i32>)
    ensures
        r == day_number_of(s@),
{
    match s.parse::<chrono::NaiveDate>() {
        Ok(d) => Some(chrono::Datelike::num_days_from_ce(&d)),
        Err(_) => None,
    }
}

} // verus!
