//! Calendar months of timestamps.
//!
//! A timestamp is a number of seconds since the Unix epoch. The strategies
//! that act once a month ask in which month of which year a timestamp falls.

use vstd::prelude::*;

verus! {

/// The year, and the month of that year from 1 to 12, in which the instant
/// `secs` seconds after the Unix epoch falls in UTC; `None` where the
/// calendar does not reach that instant.
pub uninterp spec fn utc_month(secs: i64) -> Option<(i32, u32)>;

/// Whether two timestamps fall in the same month of the same year. Two
/// timestamps that the calendar does not reach count as the same.
pub open spec fn same_month(a: i64, b: i64) -> bool {
    utc_month(a) == utc_month(b)
}

/// Whether a bar that starts at `now` opens a calendar month, where the bar
/// before it started at `last`: the first bar does, and every bar that
/// starts in another month than the bar before it.
pub open spec fn new_month(last: Option<i64>, now: i64) -> bool {
    match last {
        Some(before) => !same_month(now, before),
        None => true,
    }
}

/// Trusted: `chrono::DateTime::from_timestamp(secs, 0)`, then
/// `chrono::Datelike::year` and `chrono::Datelike::month` on its UTC date and
/// time. The result is a function of `secs` alone and is named `utc_month`;
/// chrono documents that a month is numbered from 1 to 12.
#[verifier::external_body]
fn chrono_month(secs: i64) -> (r: Option<(i32, u32)>)
    ensures
        r == utc_month(secs),
        r matches Some((_, month)) ==> 1 <= month <= 12,
{
    match chrono::DateTime::from_timestamp(secs, 0) {
        Some(t) => Some(
            (chrono::Datelike::year(&t.naive_utc()), chrono::Datelike::month(&t.naive_utc())),
        ),
        None => None,
    }
}

/// The year and the month, from 1 to 12, of a timestamp; `None` where the
/// calendar does not reach it.
pub fn month_of(secs: i64) -> (r: Option<(i32, u32)>)
    ensures
        r == utc_month(secs),
        r matches Some((_, month)) ==> 1 <= month <= 12,
{
    chrono_month(secs)
}

/// Whether two timestamps fall in the same month of the same year.
pub fn in_same_month(a: i64, b: i64) -> (r: bool)
    ensures
        r == same_month(a, b),
{
    match (month_of(a), month_of(b)) {
        (Some((year_a, month_a)), Some((year_b, month_b))) => year_a == year_b && month_a
            == month_b,
        (None, None) => true,
        _ => false,
    }
}

/// Whether a bar that starts at `now` opens a calendar month, where the bar
/// before it started at `last`.
pub fn is_new_month(last: Option<i64>, now: i64) -> (r: bool)
    ensures
        r == new_month(last, now),
{
    match last {
        Some(before) => !in_same_month(now, before),
        None => true,
    }
}

} // verus!
