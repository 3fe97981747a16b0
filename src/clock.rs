//! The local clock, read through chrono.

use vstd::prelude::*;

verus! {

/// An ASCII decimal digit.
pub open spec fn is_digit(c: char) -> bool {
    '0' <= c <= '9'
}

/// Text of the shape `HH:MM`: two digits, a colon, two digits.
pub open spec fn is_clock_reading(t: Seq<char>) -> bool {
    &&& t.len() == 5
    &&& is_digit(t[0])
    &&& is_digit(t[1])
    &&& t[2] == ':'
    &&& is_digit(t[3])
    &&& is_digit(t[4])
}

/// Text that ends in a date `YYYY-MM-DD`: a year of at least four digits
/// (with a leading sign outside the years 0 to 9999), a dash, two digits of
/// month, a dash, two digits of day.
pub open spec fn is_date_reading(t: Seq<char>) -> bool {
    let n = t.len() as int;
    &&& n >= 10
    &&& forall|i: int| n - 10 <= i < n - 6 ==> is_digit(#[trigger] t[i])
    &&& t[n - 6] == '-'
    &&& is_digit(t[n - 5])
    &&& is_digit(t[n - 4])
    &&& t[n - 3] == '-'
    &&& is_digit(t[n - 2])
    &&& is_digit(t[n - 1])
}

/// Relies on chrono's `Local::now` formatted with `%Y-%m-%d`: the local
/// calendar date of the moment of the call, the year zero-padded to at
/// least four digits, month and day to two digits each.
#[verifier::external_body]
pub(crate) fn local_date() -> (r: String)
    ensures
        is_date_reading(r@),
{
    chrono::Local::now().format("%Y-%m-%d").to_string()
}

/// Relies on chrono's `Local::now` formatted with `%H:%M`: the local time of
/// day, hour and minute each zero-padded to two digits.
#[verifier::external_body]
pub(crate) fn local_time_of_day() -> (r: String)
    ensures
        is_clock_reading(r@),
{
    chrono::Local::now().format("%H:%M").to_string()
}

} // verus!
