//! Calendar timestamps and their place on the nanosecond time line.
use vstd::prelude::*;

use crate::buffers::{BufferDesc, Item};
use crate::map_odbc_to_arrow::{computes, MapOdbcToArrow, MappedStrategy, MappingError};

verus! {

/// A timestamp as it lies in a column buffer: a date of the proleptic
/// Gregorian calendar and a time of day, without a time zone.
#[derive(Clone, Copy, Debug, PartialEq, Eq, Structural)]
pub struct Timestamp {
    pub year: i16,
    pub month: u16,
    pub day: u16,
    pub hour: u16,
    pub minute: u16,
    pub second: u16,
    /// Nanoseconds past the full second.
    pub fraction: u32,
}

impl Item for Timestamp {
    open spec fn slot_desc(nullable: bool) -> BufferDesc {
        BufferDesc::Timestamp { nullable }
    }

    proof fn slot_desc_nullable(nullable: bool) {
    }

    fn buffer_desc(nullable: bool) -> (desc: BufferDesc) {
        BufferDesc::Timestamp { nullable }
    }
}

/// Nanoseconds since the epoch of the first timestamp that is mapped:
/// 1677-09-21 00:12:44.
pub const FIRST_NS: i64 = -9_223_372_036_000_000_000;

/// Nanoseconds since the epoch of the last timestamp that is mapped:
/// 2262-04-11 23:47:16.854775807.
pub const LAST_NS: i64 = 9_223_372_036_854_775_807;

/// Whether `year` has a 29th of February in the Gregorian calendar.
pub open spec fn is_leap_year(year: int) -> bool {
    year % 4 == 0 && (year % 100 != 0 || year % 400 == 0)
}

/// The number of days of `year`.
pub open spec fn days_in_year(year: int) -> int {
    if is_leap_year(year) {
        366
    } else {
        365
    }
}

/// The number of days of `month` in `year`.
pub open spec fn days_in_month(year: int, month: int) -> int {
    if month == 2 {
        if is_leap_year(year) {
            29
        } else {
            28
        }
    } else if month == 4 || month == 6 || month == 9 || month == 11 {
        30
    } else {
        31
    }
}

/// The days of `year` that lie before the first of `month`.
pub open spec fn days_before_month(year: int, month: int) -> int
    decreases month,
{
    if month <= 1 {
        0
    } else {
        days_before_month(year, month - 1) + days_in_month(year, month - 1)
    }
}

/// The days from the first of January 1970 to the first of January of
/// `year`, negative for a year before 1970.
pub open spec fn days_before_year(year: int) -> int
    decreases
            if year >= 1970 {
                year - 1970
            } else {
                1970 - year
            },
{
    if year == 1970 {
        0
    } else if year > 1970 {
        days_before_year(year - 1) + days_in_year(year - 1)
    } else {
        days_before_year(year + 1) - days_in_year(year)
    }
}

/// The days from the first of January 1970 to the given date.
pub open spec fn days_since_epoch(year: int, month: int, day: int) -> int {
    days_before_year(year) + days_before_month(year, month) + day - 1
}

/// The leap years before `year`, counted from the year one on. For an
/// earlier year the number is that much lower.
#[verifier::opaque]
pub open spec fn leap_years_before(year: int) -> int {
    (year - 1) / 4 - (year - 1) / 100 + (year - 1) / 400
}

impl Timestamp {
    /// Whether the fields name a day of the calendar and a time of that day.
    pub open spec fn is_valid(&self) -> bool {
        &&& 1 <= self.month <= 12
        &&& 1 <= self.day <= days_in_month(self.year as int, self.month as int)
        &&& self.hour < 24
        &&& self.minute < 60
        &&& self.second < 60
        &&& self.fraction < 1_000_000_000
    }

    /// Seconds since midnight.
    pub open spec fn second_of_day(&self) -> int {
        self.hour * 3600 + self.minute * 60 + self.second
    }

    /// Nanoseconds from 1970-01-01 00:00:00 to this timestamp, negative for
    /// a timestamp before it. Every day has 86 400 seconds.
    pub open spec fn nanos_since_epoch(&self) -> int {
        (days_since_epoch(self.year as int, self.month as int, self.day as int) * 86_400
            + self.second_of_day()) * 1_000_000_000 + self.fraction
    }

    /// Whether this timestamp is earlier than `other`.
    pub open spec fn is_before(&self, other: &Timestamp) -> bool {
        ||| self.year < other.year
        ||| self.year == other.year && self.month < other.month
        ||| self.year == other.year && self.month == other.month && self.day < other.day
        ||| self.year == other.year && self.month == other.month && self.day == other.day
            && self.second_of_day() < other.second_of_day()
        ||| self.year == other.year && self.month == other.month && self.day == other.day
            && self.second_of_day() == other.second_of_day() && self.fraction < other.fraction
    }

    /// Whether the fields name a day of the calendar and a time of that day.
    pub fn validate(&self) -> (valid: bool)
        ensures
            valid == self.is_valid(),
    {
        1 <= self.month && self.month <= 12 && 1 <= self.day && self.day <= month_len(
            self.year,
            self.month,
        ) && self.hour < 24 && self.minute < 60 && self.second < 60 && self.fraction
            < 1_000_000_000
    }
}

/// The first timestamp that is mapped.
pub open spec fn first_timestamp() -> Timestamp {
    Timestamp { year: 1677, month: 9, day: 21, hour: 0, minute: 12, second: 44, fraction: 0 }
}

/// The last timestamp that is mapped.
pub open spec fn last_timestamp() -> Timestamp {
    Timestamp {
        year: 2262,
        month: 4,
        day: 11,
        hour: 23,
        minute: 47,
        second: 16,
        fraction: 854_775_807,
    }
}

/// What a timestamp is mapped to: its nanoseconds since the epoch where
/// they lie between those of the first and the last timestamp, else the
/// error that says so and holds the timestamp.
pub open spec fn mapped_ns(from: Timestamp) -> Result<i64, MappingError> {
    if FIRST_NS <= from.nanos_since_epoch() <= LAST_NS {
        Ok(from.nanos_since_epoch() as i64)
    } else {
        Err(MappingError::OutOfRangeTimestampNs { value: from })
    }
}

fn leap_year(year: i16) -> (leap: bool)
    ensures
        leap == is_leap_year(year as int),
{
    // Shifted by a multiple of 400 the year is positive and as much a leap year.
    let shifted: i32 = year as i32 + 32_800;
    shifted % 4 == 0 && (shifted % 100 != 0 || shifted % 400 == 0)
}

fn month_len(year: i16, month: u16) -> (days: u16)
    ensures
        days == days_in_month(year as int, month as int),
{
    if month == 2 {
        if leap_year(year) {
            29
        } else {
            28
        }
    } else if month == 4 || month == 6 || month == 9 || month == 11 {
        30
    } else {
        31
    }
}

/// The days of a year before each of its months add up as the table in
/// `month_start` has them.
proof fn lemma_days_before_month(year: int)
    ensures
        days_before_month(year, 1) == 0,
        days_before_month(year, 2) == 31,
        days_before_month(year, 3) == 31 + days_in_month(year, 2),
        days_before_month(year, 4) == 62 + days_in_month(year, 2),
        days_before_month(year, 5) == 92 + days_in_month(year, 2),
        days_before_month(year, 6) == 123 + days_in_month(year, 2),
        days_before_month(year, 7) == 153 + days_in_month(year, 2),
        days_before_month(year, 8) == 184 + days_in_month(year, 2),
        days_before_month(year, 9) == 215 + days_in_month(year, 2),
        days_before_month(year, 10) == 245 + days_in_month(year, 2),
        days_before_month(year, 11) == 276 + days_in_month(year, 2),
        days_before_month(year, 12) == 306 + days_in_month(year, 2),
        days_before_month(year, 13) == days_in_year(year),
{
    reveal_with_fuel(days_before_month, 14);
}

/// From one year to the next the count of leap years goes up by one exactly
/// if the year is a leap year.
proof fn lemma_leap_years_step(year: int)
    ensures
        leap_years_before(year + 1) == leap_years_before(year) + if is_leap_year(year) {
            1int
        } else {
            0int
        },
{
    reveal(leap_years_before);
    assert(year / 4 == (year - 1) / 4 + if year % 4 == 0 { 1int } else { 0int });
    assert(year / 100 == (year - 1) / 100 + if year % 100 == 0 { 1int } else { 0int });
    assert(year / 400 == (year - 1) / 400 + if year % 400 == 0 { 1int } else { 0int });
    assert(year % 400 == 0 ==> year % 100 == 0);
    assert(year % 100 == 0 ==> year % 4 == 0);
}

/// The days between the first of January 1970 and that of `year` are 365 for
/// each year and one more for each leap year between them.
pub proof fn lemma_days_before_year(year: int)
    ensures
        days_before_year(year) == 365 * (year - 1970) + leap_years_before(year) - 477,
    decreases
            if year >= 1970 {
                year - 1970
            } else {
                1970 - year
            },
{
    if year == 1970 {
        reveal(leap_years_before);
    } else if year > 1970 {
        lemma_days_before_year(year - 1);
        lemma_leap_years_step(year - 1);
    } else {
        lemma_days_before_year(year + 1);
        lemma_leap_years_step(year);
    }
}

/// The days from the first of January 1970 to the first of January of `year`.
fn year_start(year: i16) -> (days: i64)
    ensures
        days == days_before_year(year as int),
        -12_690_000 < days < 11_250_000,
{
    proof {
        lemma_days_before_year(year as int);
        reveal(leap_years_before);
    }
    // Shifted by a multiple of 400 the year before is positive, and the
    // divisions count the leap years from an earlier year on.
    let shifted: i64 = year as i64 - 1 + 32_800;
    let by_4: i64 = shifted / 4;
    let by_100: i64 = shifted / 100;
    let by_400: i64 = shifted / 400;
    assert(by_4 - 8_200 == (year - 1) / 4);
    assert(by_100 - 328 == (year - 1) / 100);
    assert(by_400 - 82 == (year - 1) / 400);
    365 * (year as i64 - 1970) + (by_4 - by_100 + by_400 - 7_954) - 477
}

/// The days of `year` that lie before the first of `month`.
fn month_start(year: i16, month: u16) -> (days: i64)
    requires
        1 <= month <= 12,
    ensures
        days == days_before_month(year as int, month as int),
        0 <= days <= 335,
{
    proof {
        lemma_days_before_month(year as int);
    }
    let february: i64 = if leap_year(year) {
        29
    } else {
        28
    };
    if month == 1 {
        0
    } else if month == 2 {
        31
    } else if month == 3 {
        31 + february
    } else if month == 4 {
        62 + february
    } else if month == 5 {
        92 + february
    } else if month == 6 {
        123 + february
    } else if month == 7 {
        153 + february
    } else if month == 8 {
        184 + february
    } else if month == 9 {
        215 + february
    } else if month == 10 {
        245 + february
    } else if month == 11 {
        276 + february
    } else {
        306 + february
    }
}

/// The days from the first of January 1970 to the given date.
fn day_number(year: i16, month: u16, day: u16) -> (days: i64)
    requires
        1 <= month <= 12,
        1 <= day <= 31,
    ensures
        days == days_since_epoch(year as int, month as int, day as int),
        -12_700_000 < days < 11_300_000,
{
    year_start(year) + month_start(year, month) + day as i64 - 1
}

/// Maps a timestamp to its nanoseconds since the epoch, 1970-01-01
/// 00:00:00. A signed 64 bit integer holds them for timestamps from
/// 1677-09-21 00:12:44 to 2262-04-11 23:47:16.854775807 only: one outside
/// of these is not mapped. The error then holds the timestamp.
pub fn ns_since_epoch(from: &Timestamp) -> (mapped: Result<i64, MappingError>)
    requires
        from.is_valid(),
    ensures
        mapped == mapped_ns(*from),
{
    let days: i64 = day_number(from.year, from.month, from.day);
    let seconds: i64 = from.hour as i64 * 3600 + from.minute as i64 * 60 + from.second as i64;
    let nanos: i128 = (days as i128 * 86_400 + seconds as i128) * 1_000_000_000
        + from.fraction as i128;
    if nanos < FIRST_NS as i128 || nanos > LAST_NS as i128 {
        Err(MappingError::OutOfRangeTimestampNs { value: *from })
    } else {
        Ok(nanos as i64)
    }
}

/// The epoch is mapped to zero.
pub proof fn lemma_epoch_is_zero()
    ensures
        mapped_ns(
            Timestamp { year: 1970, month: 1, day: 1, hour: 0, minute: 0, second: 0, fraction: 0 },
        ) == Ok::<i64, MappingError>(0),
{
    lemma_days_before_month(1970);
}

/// The first and the last timestamp that are mapped lie where [`FIRST_NS`]
/// and [`LAST_NS`] say.
pub proof fn lemma_window()
    ensures
        first_timestamp().is_valid(),
        last_timestamp().is_valid(),
        first_timestamp().nanos_since_epoch() == FIRST_NS,
        last_timestamp().nanos_since_epoch() == LAST_NS,
{
    reveal(leap_years_before);
    lemma_days_before_year(1677);
    lemma_days_before_month(1677);
    lemma_days_before_year(2262);
    lemma_days_before_month(2262);
}

/// A later year starts after an earlier one has ended.
proof fn lemma_years_follow(earlier: int, later: int)
    requires
        earlier < later,
    ensures
        days_before_year(earlier) + days_in_year(earlier) <= days_before_year(later),
    decreases later - earlier,
{
    if earlier + 1 < later {
        lemma_years_follow(earlier, later - 1);
    }
}

/// Of two days of the calendar the earlier has the lower number.
proof fn lemma_days_are_monotonic(a: Timestamp, b: Timestamp)
    requires
        a.is_valid(),
        b.is_valid(),
        a.year < b.year || (a.year == b.year && a.month < b.month) || (a.year == b.year && a.month
            == b.month && a.day < b.day),
    ensures
        days_since_epoch(a.year as int, a.month as int, a.day as int) < days_since_epoch(
            b.year as int,
            b.month as int,
            b.day as int,
        ),
{
    lemma_days_before_month(a.year as int);
    lemma_days_before_month(b.year as int);
    if a.year < b.year {
        lemma_years_follow(a.year as int, b.year as int);
    }
}

/// Of two timestamps the earlier lies earlier on the nanosecond time line.
pub proof fn lemma_nanos_are_monotonic(a: Timestamp, b: Timestamp)
    requires
        a.is_valid(),
        b.is_valid(),
        a.is_before(&b),
    ensures
        a.nanos_since_epoch() < b.nanos_since_epoch(),
{
    if a.year == b.year && a.month == b.month && a.day == b.day {
    } else {
        lemma_days_are_monotonic(a, b);
    }
}

/// A timestamp earlier than 1677-09-21 00:12:44 or later than 2262-04-11
/// 23:47:16.854775807 is not mapped, and the error holds the timestamp.
pub proof fn lemma_outside_window_fails(from: Timestamp)
    requires
        from.is_valid(),
        from.is_before(&first_timestamp()) || last_timestamp().is_before(&from),
    ensures
        mapped_ns(from) == Err::<i64, MappingError>(
            MappingError::OutOfRangeTimestampNs { value: from },
        ),
{
    lemma_window();
    if from.is_before(&first_timestamp()) {
        lemma_nanos_are_monotonic(from, first_timestamp());
    } else {
        lemma_nanos_are_monotonic(last_timestamp(), from);
    }
}

/// Every timestamp from 1677-09-21 00:12:44 to 2262-04-11 23:47:16.854775807
/// is mapped.
pub proof fn lemma_inside_window_succeeds(from: Timestamp)
    requires
        from.is_valid(),
        !from.is_before(&first_timestamp()),
        !last_timestamp().is_before(&from),
    ensures
        mapped_ns(from) == Ok::<i64, MappingError>(from.nanos_since_epoch() as i64),
{
    lemma_window();
    if first_timestamp().is_before(&from) {
        lemma_nanos_are_monotonic(first_timestamp(), from);
    }
    if from.is_before(&last_timestamp()) {
        lemma_nanos_are_monotonic(from, last_timestamp());
    }
}

/// As a mapping of slots to elements, [`ns_since_epoch`] is [`mapped_ns`].
pub proof fn lemma_ns_since_epoch_computes()
    ensures
        computes(ns_since_epoch, |from: Timestamp| mapped_ns(from)),
{
}

/// The strategy for a column of timestamps whose array holds nanoseconds
/// since the epoch.
pub fn timestamp_ns_strategy(nullable: bool) -> (strategy: MappedStrategy<
    i64,
    Timestamp,
    impl Fn(&Timestamp) -> Result<i64, MappingError>,
>)
    ensures
        strategy.is_nullable() == nullable,
        computes(strategy.mapping(), |from: Timestamp| mapped_ns(from)),
        forall|from: Timestamp| from.is_valid() ==> call_requires(strategy.mapping(), (&from,)),
{
    <i64 as MapOdbcToArrow>::map_with(nullable, ns_since_epoch)
}

} // verus!
