//! What holds of points in time, said of their seconds.

use crate::moment::{
    Timestamp, days_before_month, days_before_year, days_in_month, two_digits,
};
use vstd::prelude::*;

verus! {

/// A day is 86400 seconds long and begins at midnight: in UTC for the day in
/// UTC, and in the offset of the point for its own day. So the two differ by
/// no more than the offset makes them.
pub proof fn law_a_day_begins_at_midnight(t: Timestamp)
    ensures
        t.utc_day_number() * 86_400 <= t.unix_seconds() < (t.utc_day_number() + 1) * 86_400,
        t.local_day() * 86_400 <= t.unix_seconds() + t.utc_offset() < (t.local_day() + 1) * 86_400,
        t.utc_offset() == 0 ==> t.local_day() == t.utc_day_number(),
{
}

/// Of two points the one with more whole seconds is later, and of two within
/// the same second the one with more nanoseconds; the offset makes no
/// difference. A second is a thousand million nanoseconds.
pub proof fn law_later_is_later(a: Timestamp, b: Timestamp)
    requires
        a.subsecond() < 1_000_000_000,
        b.subsecond() < 1_000_000_000,
    ensures
        a.unix_seconds() < b.unix_seconds() ==> a.instant() < b.instant(),
        a.unix_seconds() == b.unix_seconds() ==> b.instant() - a.instant() == b.subsecond()
            - a.subsecond(),
        a.subsecond() == b.subsecond() ==> b.instant() - a.instant() == (b.unix_seconds()
            - a.unix_seconds()) * 1_000_000_000,
        a.instant() == b.instant() ==> a.unix_seconds() == b.unix_seconds() && a.subsecond()
            == b.subsecond(),
{
}

/// A year has 365 days, and one more where it is divisible by four, but not by
/// a hundred unless by four hundred; and its months, from the first to the
/// last, have as many days as the year.
pub proof fn law_a_year_has_its_days(year: int)
    ensures
        days_before_year(year + 1) - days_before_year(year) == if year % 400 == 0 || year % 4 == 0
            && year % 100 != 0 {
            366int
        } else {
            365
        },
        days_before_month(year, 13) == days_before_year(year + 1) - days_before_year(year),
        days_in_month(year, 1) == 31 && days_in_month(year, 3) == 31 && days_in_month(year, 5)
            == 31 && days_in_month(year, 7) == 31 && days_in_month(year, 8) == 31
            && days_in_month(year, 10) == 31 && days_in_month(year, 12) == 31,
        days_in_month(year, 4) == 30 && days_in_month(year, 6) == 30 && days_in_month(year, 9)
            == 30 && days_in_month(year, 11) == 30,
{
    reveal_with_fuel(days_before_month, 14);
}

/// A day or a month is written with two digits, with a zero in front of a
/// small one.
pub proof fn law_two_digits(n: u8)
    requires
        n < 100,
    ensures
        two_digits(n).len() == 2,
        crate::text::parsed_unsigned(two_digits(n), 99) == Some(n as nat),
{
    let text = two_digits(n);
    crate::text::laws::law_a_written_number_is_read_back(n as nat, 99);
    reveal_with_fuel(crate::text::decimal, 2);
    reveal_with_fuel(crate::text::digits_value, 3);
    assert(text.len() == 2);
    assert(text[0] != '+');
    assert(text.drop_last().drop_last() =~= Seq::<char>::empty());
    assert(text.drop_last().last() == text[0]);
    assert(crate::text::is_digits(text));
}

} // verus!
