//! Points in time, days and spans as plain numbers.

pub mod laws;

use crate::text::{decimal, decimal_i64, decimal_int, decimal_u64};
use vstd::prelude::*;

verus! {

/// A point in time together with the UTC offset it was written in. Its local
/// date lies between the years -9999 and 9999.
#[derive(Clone, Copy, Debug)]
pub struct Timestamp {
    seconds: i64,
    nanos: u32,
    offset: i32,
}

/// A calendar day between the years -9999 and 9999, counted from 1970-01-01.
#[derive(Clone, Copy, Debug, PartialEq, Eq, Structural)]
pub struct Date {
    days: i32,
}

/// A length of time.
#[derive(Clone, Copy, Debug, PartialEq, Eq, Structural)]
pub struct Span {
    pub nanos: i128,
}

/// How many nanoseconds an hour has.
pub const NANOS_PER_HOUR: i128 = 3_600_000_000_000;

impl Span {
    /// That many hours.
    pub fn hours(hours: i64) -> (span: Span)
        ensures
            span.nanos == hours * NANOS_PER_HOUR,
    {
        Span { nanos: hours as i128 * NANOS_PER_HOUR }
    }

    /// That many days.
    pub fn days(days: i64) -> (span: Span)
        ensures
            span.nanos == days * 24 * NANOS_PER_HOUR,
    {
        Span { nanos: days as i128 * 24 * NANOS_PER_HOUR }
    }
}

/// Whether a Unix time, a fraction and an offset make a [`Timestamp`].
pub open spec fn valid_moment(seconds: i64, nanos: u32, offset: i32) -> bool {
    &&& nanos < 1_000_000_000
    &&& -93_599 <= offset <= 93_599
    &&& -377_705_116_800 <= seconds + offset <= 253_402_300_799
}

impl Timestamp {
    #[verifier::type_invariant]
    spec fn in_range(self) -> bool {
        valid_moment(self.seconds, self.nanos, self.offset)
    }

    /// The Unix time in whole seconds.
    pub closed spec fn unix_seconds(self) -> i64 {
        self.seconds
    }

    /// The nanoseconds on top of the whole seconds.
    pub closed spec fn subsecond(self) -> u32 {
        self.nanos
    }

    /// The UTC offset in seconds.
    pub closed spec fn utc_offset(self) -> i32 {
        self.offset
    }

    /// The nanoseconds since the Unix epoch.
    pub open spec fn instant(self) -> int {
        self.unix_seconds() * 1_000_000_000 + self.subsecond()
    }

    /// The day it is in the offset the point was written in, counted from
    /// 1970-01-01.
    pub open spec fn local_day(self) -> int {
        (self.unix_seconds() + self.utc_offset()) / 86_400
    }

    /// The day it is in UTC, counted from 1970-01-01.
    pub open spec fn utc_day_number(self) -> int {
        self.unix_seconds() as int / 86_400
    }

    /// The point `nanos` nanoseconds after `seconds` seconds of Unix time,
    /// written in the offset `offset` (in seconds).
    pub fn new(seconds: i64, nanos: u32, offset: i32) -> (r: Option<Timestamp>)
        ensures
            r is Some <==> valid_moment(seconds, nanos, offset),
            r matches Some(t) ==> t.unix_seconds() == seconds && t.subsecond() == nanos
                && t.utc_offset() == offset,
    {
        if nanos >= 1_000_000_000 || offset < -93_599 || offset > 93_599 {
            return None;
        }
        let local: i128 = seconds as i128 + offset as i128;
        if local < -377_705_116_800 || local > 253_402_300_799 {
            return None;
        }
        Some(Timestamp { seconds, nanos, offset })
    }

    /// The Unix time in whole seconds.
    pub fn seconds(&self) -> (r: i64)
        ensures
            r == self.unix_seconds(),
    {
        self.seconds
    }

    /// The nanoseconds on top of the whole seconds.
    pub fn nanoseconds(&self) -> (r: u32)
        ensures
            r == self.subsecond(),
    {
        self.nanos
    }

    /// The UTC offset in seconds.
    pub fn offset_seconds(&self) -> (r: i32)
        ensures
            r == self.utc_offset(),
    {
        self.offset
    }

    /// How long after `earlier` this point lies.
    pub fn since(&self, earlier: &Timestamp) -> (r: Span)
        ensures
            r.nanos == self.instant() - earlier.instant(),
    {
        let a: i128 = self.seconds as i128 * 1_000_000_000 + self.nanos as i128;
        let b: i128 = earlier.seconds as i128 * 1_000_000_000 + earlier.nanos as i128;
        Span { nanos: a - b }
    }

    /// Whether this point lies before `other`.
    pub fn before(&self, other: &Timestamp) -> (r: bool)
        ensures
            r == (self.instant() < other.instant()),
    {
        self.since(other).nanos < 0
    }

    /// The later of two points.
    pub fn later(self, other: Timestamp) -> (r: Timestamp)
        ensures
            r == (if other.instant() < self.instant() { self } else { other }),
    {
        if other.before(&self) {
            self
        } else {
            other
        }
    }

    /// The calendar day in the offset the point was written in.
    pub fn date(&self) -> (r: Date)
        ensures
            r.day_number() == self.local_day(),
    {
        proof {
            use_type_invariant(self);
        }
        let shifted: u64 = (self.seconds + self.offset as i64 + 377_705_116_800) as u64;
        let days: u64 = shifted / 86_400;
        Date { days: days as i32 - 4_371_587 }
    }

    /// The calendar day in UTC, counted from 1970-01-01.
    pub fn utc_day(&self) -> (r: i64)
        ensures
            r == self.utc_day_number(),
    {
        proof {
            use_type_invariant(self);
        }
        let shifted: u64 = (self.seconds + 377_705_289_600) as u64;
        (shifted / 86_400) as i64 - 4_371_589
    }
}

impl PartialEq for Timestamp {
    /// Two points are equal when they are the same instant.
    fn eq(&self, other: &Timestamp) -> (r: bool) {
        self.since(other).nanos == 0
    }
}

impl vstd::std_specs::cmp::PartialEqSpecImpl for Timestamp {
    open spec fn obeys_eq_spec() -> bool {
        true
    }

    open spec fn eq_spec(&self, other: &Timestamp) -> bool {
        self.instant() == other.instant()
    }
}

impl Date {
    #[verifier::type_invariant]
    spec fn in_calendar(self) -> bool {
        -4_371_587 <= self.days <= 2_932_896
    }

    /// The days since 1970-01-01.
    pub closed spec fn day_number(self) -> int {
        self.days as int
    }

    /// The day that many days after 1970-01-01.
    pub fn from_day_number(days: i32) -> (r: Option<Date>)
        ensures
            r is Some <==> -4_371_587 <= days <= 2_932_896,
            r matches Some(d) ==> d.day_number() == days,
    {
        if -4_371_587 <= days && days <= 2_932_896 {
            Some(Date { days })
        } else {
            None
        }
    }

    /// Year, month and day of the month.
    pub fn civil(&self) -> (r: (i32, u8, u8))
        ensures
            is_date(r),
            julian_day_of(r) == self.day_number() + 2_440_588,
            r == calendar(self.day_number() + 2_440_588),
    {
        proof {
            use_type_invariant(self);
        }
        let r = calendar_of_julian_day(self.days + 2_440_588);
        proof {
            law_a_day_has_one_date(r, calendar(self.day_number() + 2_440_588));
        }
        r
    }

    /// The days since 1970-01-01.
    pub fn days(&self) -> (r: i32)
        ensures
            r == self.day_number(),
    {
        self.days
    }
}

/// Whether a year has a 29th of February.
pub open spec fn is_leap_year(year: int) -> bool {
    year % 4 == 0 && (year % 100 != 0 || year % 400 == 0)
}

/// How many days a month has.
pub open spec fn days_in_month(year: int, month: int) -> int {
    if month == 2 {
        if is_leap_year(year) {
            29
        } else {
            28
        }
    } else if month == 4 || month == 6 || month == 9 || month == 11 {
        30
    } else {
        31
    }
}

/// How many days of a year lie before a month.
pub open spec fn days_before_month(year: int, month: int) -> int
    decreases month,
{
    if month <= 1 {
        0
    } else {
        days_before_month(year, month - 1) + days_in_month(year, month - 1)
    }
}

/// How many days lie between the beginning of the year 1 and that of a year.
pub open spec fn days_before_year(year: int) -> int {
    365 * (year - 1) + (year - 1) / 4 - (year - 1) / 100 + (year - 1) / 400
}

/// Whether a year, a month and a day of the month are a date.
pub open spec fn is_date(date: (i32, u8, u8)) -> bool {
    1 <= date.1 <= 12 && 1 <= date.2 <= days_in_month(date.0 as int, date.1 as int)
}

/// The Julian day of a date in the Gregorian calendar. That of the 1st of
/// January of the year 1 is 1721426.
pub open spec fn julian_day_of(date: (i32, u8, u8)) -> int {
    days_before_year(date.0 as int) + days_before_month(date.0 as int, date.1 as int) + date.2
        + 1_721_425
}

/// Year, month and day of the month of a Julian day: the one date that has
/// it.
pub open spec fn calendar(julian_day: int) -> (i32, u8, u8) {
    choose|date: (i32, u8, u8)| is_date(date) && #[trigger] julian_day_of(date) == julian_day
}

/// Calls `time::Date::from_julian_day` and reads year, month and day of the
/// result: a date whose Julian day is the given one. Days outside the years
/// -9999 to 9999 are left out.
#[verifier::external_body]
fn calendar_of_julian_day(julian_day: i32) -> (r: (i32, u8, u8))
    requires
        -1_930_999 <= julian_day <= 5_373_484,
    ensures
        is_date(r),
        julian_day_of(r) == julian_day,
{
    let date = time::Date::from_julian_day(julian_day).expect("a day in range");
    (date.year(), u8::from(date.month()), date.day())
}

proof fn lemma_months_follow(year: int, month: int, later: int)
    requires
        1 <= month < later,
    ensures
        days_before_month(year, month) + days_in_month(year, month) <= days_before_month(
            year,
            later,
        ),
    decreases later,
{
    if month < later - 1 {
        lemma_months_follow(year, month, later - 1);
    }
}

proof fn lemma_years_follow(year: int, later: int)
    requires
        year < later,
    ensures
        days_before_year(year) + days_before_month(year, 13) <= days_before_year(later),
    decreases later - year,
{
    reveal_with_fuel(days_before_month, 13);
    if year + 1 < later {
        lemma_years_follow(year + 1, later);
    }
}

/// Every day has one date: two dates with the same Julian day are the same.
pub proof fn law_a_day_has_one_date(a: (i32, u8, u8), b: (i32, u8, u8))
    requires
        is_date(a),
        is_date(b),
        julian_day_of(a) == julian_day_of(b),
    ensures
        a == b,
{
    lemma_months_follow(a.0 as int, a.1 as int, 13);
    lemma_months_follow(b.0 as int, b.1 as int, 13);
    if a.0 < b.0 {
        lemma_years_follow(a.0 as int, b.0 as int);
        lemma_day_in_year(b);
    } else if b.0 < a.0 {
        lemma_years_follow(b.0 as int, a.0 as int);
        lemma_day_in_year(a);
    } else if a.1 < b.1 {
        lemma_months_follow(a.0 as int, a.1 as int, b.1 as int);
    } else if b.1 < a.1 {
        lemma_months_follow(a.0 as int, b.1 as int, a.1 as int);
    }
}

proof fn lemma_day_in_year(date: (i32, u8, u8))
    requires
        is_date(date),
    ensures
        days_before_month(date.0 as int, date.1 as int) >= 0,
{
    if date.1 > 1 {
        lemma_months_follow(date.0 as int, 1, date.1 as int);
    }
}

/// Unix seconds, nanoseconds and offset of the point that a text names in the
/// RFC 3339 format; nothing where the text is not in that format.
pub uninterp spec fn rfc3339_parts(text: Seq<char>) -> Option<(i64, u32, i32)>;

/// Calls `time::OffsetDateTime::parse` with the format `Rfc3339`. What it
/// reads is a function of the text alone, named [`rfc3339_parts`].
#[verifier::external_body]
fn rfc3339_read(text: &str) -> (r: Option<(i64, u32, i32)>)
    ensures
        r == rfc3339_parts(text@),
{
    time::OffsetDateTime::parse(text, &time::format_description::well_known::Rfc3339).ok().map(
        |t| (t.unix_timestamp(), t.nanosecond(), t.offset().whole_seconds()),
    )
}

/// How the format RFC 3339 writes the point whose local time is
/// `local_seconds` after 1970-01-01T00:00:00 in the offset `offset`; empty
/// where the format cannot write it.
pub uninterp spec fn rfc3339_form(local_seconds: int, nanos: int, offset: int) -> Seq<char>;

/// Calls `time::OffsetDateTime::format` with the format `Rfc3339`, on the
/// point built from its local time and its offset. The text is a function of
/// the three numbers alone, named [`rfc3339_form`].
#[verifier::external_body]
fn rfc3339_write(local_seconds: i64, nanos: u32, offset: i32) -> (r: String)
    ensures
        r@ == rfc3339_form(local_seconds as int, nanos as int, offset as int),
{
    let written = || -> Option<String> {
        let local = time::OffsetDateTime::from_unix_timestamp(local_seconds).ok()?;
        let offset = time::UtcOffset::from_whole_seconds(offset).ok()?;
        let point = local.replace_nanosecond(nanos).ok()?.replace_offset(offset);
        point.format(&time::format_description::well_known::Rfc3339).ok()
    };
    written().unwrap_or_default()
}

/// The point that a text names in the RFC 3339 format; nothing where it names
/// none that a [`Timestamp`] can hold.
pub closed spec fn moment_named(text: Seq<char>) -> Option<Timestamp> {
    match rfc3339_parts(text) {
        Some((seconds, nanos, offset)) => if valid_moment(seconds, nanos, offset) {
            Some(Timestamp { seconds, nanos, offset })
        } else {
            None
        },
        None => None,
    }
}

/// What is read of a point in the RFC 3339 format is the point.
pub proof fn law_a_moment_is_what_the_text_names(text: Seq<char>)
    ensures
        moment_named(text) is Some <==> (rfc3339_parts(text) matches Some(p) && valid_moment(
            p.0,
            p.1,
            p.2,
        )),
        moment_named(text) matches Some(t) ==> rfc3339_parts(text) == Some(
            (t.unix_seconds(), t.subsecond(), t.utc_offset()),
        ),
{
}

/// Reads a point in the RFC 3339 format.
pub fn parse_rfc3339(text: &str) -> (r: Option<Timestamp>)
    ensures
        r == moment_named(text@),
{
    match rfc3339_read(text) {
        Some(p) => Timestamp::new(p.0, p.1, p.2),
        None => None,
    }
}

/// How RFC 3339 writes a point.
pub open spec fn rfc3339_text(t: Timestamp) -> Seq<char> {
    rfc3339_form(t.unix_seconds() + t.utc_offset(), t.subsecond() as int, t.utc_offset() as int)
}

/// Writes a point in the RFC 3339 format.
pub fn format_rfc3339(t: &Timestamp) -> (r: String)
    ensures
        r@ == rfc3339_text(*t),
{
    proof {
        use_type_invariant(t);
    }
    rfc3339_write(t.seconds + t.offset as i64, t.nanos, t.offset)
}

/// A number below 100 in two digits.
pub open spec fn two_digits(n: u8) -> Seq<char> {
    if n < 10 {
        seq!['0'] + decimal(n as nat)
    } else {
        decimal(n as nat)
    }
}

/// A number in at least two digits.
pub fn two_digit_text(n: u8) -> (r: String)
    ensures
        r@ == two_digits(n),
{
    if n < 10 {
        proof {
            reveal_strlit("0");
        }
        let mut r = "0".to_owned();
        r.append(decimal_u64(n as u64).as_str());
        assert(r@ =~= two_digits(n));
        r
    } else {
        decimal_u64(n as u64)
    }
}

/// A year as it is written: its decimal digits.
pub fn year_text(year: i32) -> (r: String)
    ensures
        r@ == decimal_int(year as int),
{
    decimal_i64(year as i64)
}

} // verus!
