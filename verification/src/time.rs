//! Points in time as plain values: seconds and nanoseconds since the Unix
//! epoch, and the same with the offset of a time zone. The calendar work
//! (turning a point in time into text, reading the clock) is done by chrono.

use vstd::prelude::*;

verus! {

/// The first second that chrono's `DateTime<Utc>` can hold: the start of the
/// year -262143.
pub const MIN_SECONDS: i64 = -8_334_601_228_800;

/// The last second that chrono's `DateTime<Utc>` can hold: the end of the
/// year 262142.
pub const MAX_SECONDS: i64 = 8_210_266_876_799;

/// Whether chrono can hold the point in time `secs` seconds and `nanos`
/// nanoseconds after the epoch. A billion nanoseconds or more stand for a leap
/// second, which can only be the last second of a minute.
pub open spec fn representable(secs: int, nanos: int) -> bool {
    &&& MIN_SECONDS <= secs <= MAX_SECONDS
    &&& 0 <= nanos < 2_000_000_000
    &&& nanos >= 1_000_000_000 ==> secs % 60 == 59
}

/// Whether `offset` seconds east of Greenwich is an offset that a time zone
/// can have: less than a day either way.
pub open spec fn valid_offset(offset: int) -> bool {
    -86_400 < offset < 86_400
}

/// The pattern for dates as the documents show them: day, month, year and
/// time of day.
pub open spec fn display_pattern() -> Seq<char> {
    "%d.%m.%Y %H:%M:%S"@
}

/// The pattern for dates as file names carry them: year, month, day and
/// time of day, without colons.
pub open spec fn file_pattern() -> Seq<char> {
    "%Y-%m-%dT%H-%M-%S"@
}

/// The text that chrono's `format` gives, by the pattern, for the point in
/// time in the zone `offset` seconds east of Greenwich.
pub uninterp spec fn formatted_stamp(secs: int, nanos: int, offset: int, pattern: Seq<char>) -> Seq<
    char,
>;

/// The text `day.month.year hour:minute:second` for the point in time in the
/// zone `offset` seconds east of Greenwich.
pub open spec fn display_stamp(secs: int, nanos: int, offset: int) -> Seq<char> {
    formatted_stamp(secs, nanos, offset, display_pattern())
}

/// The text `year-month-dayThour-minute-second` for the point in time in the
/// zone `offset` seconds east of Greenwich.
pub open spec fn file_stamp(secs: int, nanos: int, offset: int) -> Seq<char> {
    formatted_stamp(secs, nanos, offset, file_pattern())
}

/// The seconds after the epoch of the given calendar date and time of day in
/// UTC, as chrono's `with_ymd_and_hms` finds them; `None` where there is no
/// such date or time.
pub uninterp spec fn utc_civil_seconds(
    year: int,
    month: int,
    day: int,
    hour: int,
    minute: int,
    second: int,
) -> Option<int>;

/// The whole seconds and the nanoseconds beyond them that lie between two
/// points in time, as chrono's `signed_duration_since` counts them.
pub uninterp spec fn elapsed_between(
    start_secs: int,
    start_nanos: int,
    end_secs: int,
    end_nanos: int,
) -> (int, int);

/// The time between two points in time of which neither lies within a leap
/// second: the difference in nanoseconds, parted into whole seconds, rounded
/// towards zero, and the nanoseconds beyond them, which have the sign of the
/// difference.
pub open spec fn elapsed_outside_leap(
    start_secs: int,
    start_nanos: int,
    end_secs: int,
    end_nanos: int,
) -> (int, int) {
    let total = (end_secs - start_secs) * 1_000_000_000 + (end_nanos - start_nanos);
    let whole = total / 1_000_000_000;
    let rest = total % 1_000_000_000;
    if whole < 0 && rest > 0 {
        (whole + 1, rest - 1_000_000_000)
    } else {
        (whole, rest)
    }
}

/// The time from `start` to `end`: whole seconds, and the nanoseconds beyond
/// them. Where one of the two lies within a leap second, it is what chrono
/// makes of it.
pub open spec fn elapsed(start: Instant, end: Instant) -> (int, int) {
    if start.nanos < 1_000_000_000 && end.nanos < 1_000_000_000 {
        elapsed_outside_leap(start.secs, start.nanos, end.secs, end.nanos)
    } else {
        elapsed_between(start.secs, start.nanos, end.secs, end.nanos)
    }
}

/// chrono's `format` on a `DateTime` made by `from_timestamp` and
/// `with_timezone`, for one of the two patterns of the library. The text is
/// there for every point in time that chrono can hold and every valid
/// offset; the contract gives it its name.
#[verifier::external_body]
fn chrono_format(secs: i64, nanos: u32, offset: i32, pattern: &str) -> (text: Option<String>)
    requires
        pattern@ == display_pattern() || pattern@ == file_pattern(),
    ensures
        representable(secs as int, nanos as int) && valid_offset(offset as int) ==> text is Some,
        text matches Some(t) ==> t@ == formatted_stamp(
            secs as int,
            nanos as int,
            offset as int,
            pattern@,
        ),
{
    let utc = chrono::DateTime::from_timestamp(secs, nanos)?;
    let zone = chrono::FixedOffset::east_opt(offset)?;
    Some(utc.with_timezone(&zone).format(pattern).to_string())
}

/// chrono's `Utc::now`: the clock's reading, as seconds and nanoseconds after
/// the epoch. Whatever the clock says, chrono can hold it, and it never reads
/// a leap second: the nanoseconds stay below a billion.
#[verifier::external_body]
fn chrono_utc_now() -> (parts: (i64, u32))
    ensures
        representable(parts.0 as int, parts.1 as int),
        parts.1 < 1_000_000_000,
{
    let now = chrono::Utc::now();
    (now.timestamp(), now.timestamp_subsec_nanos())
}

/// chrono's `Local::now`: the reading of `Utc::now` with the offset of the
/// machine's time zone at that moment, in seconds east of Greenwich.
#[verifier::external_body]
fn chrono_local_now() -> (parts: (i64, u32, i32))
    ensures
        representable(parts.0 as int, parts.1 as int),
        parts.1 < 1_000_000_000,
        valid_offset(parts.2 as int),
{
    let now = chrono::Local::now();
    (now.timestamp(), now.timestamp_subsec_nanos(), now.offset().local_minus_utc())
}

/// chrono's `Utc.with_ymd_and_hms`: the point in time of a calendar date and
/// time of day in UTC, where there is one.
#[verifier::external_body]
fn chrono_utc_civil(year: i32, month: u32, day: u32, hour: u32, minute: u32, second: u32) -> (secs:
    Option<i64>)
    ensures
        secs matches Some(s) ==> representable(s as int, 0),
        match secs {
            Some(s) => utc_civil_seconds(
                year as int,
                month as int,
                day as int,
                hour as int,
                minute as int,
                second as int,
            ) == Some(s as int),
            None => utc_civil_seconds(
                year as int,
                month as int,
                day as int,
                hour as int,
                minute as int,
                second as int,
            ) is None,
        },
{
    match chrono::TimeZone::with_ymd_and_hms(&chrono::Utc, year, month, day, hour, minute, second)
        .single() {
        Some(t) => Some(t.timestamp()),
        None => None,
    }
}

/// chrono's `checked_add_signed` with the `TimeDelta` of `try_days`: the
/// point in time so many whole days later. Outside a leap second the seconds
/// grow by 86,400 for each day and the nanoseconds stay, where chrono can
/// hold the sum; and whatever comes back is a point in time that chrono can
/// hold.
#[verifier::external_body]
fn chrono_plus_days(secs: i64, nanos: u32, days: i64) -> (later: Option<(i64, u32)>)
    ensures
        later matches Some(t) ==> representable(t.0 as int, t.1 as int),
        representable(secs as int, nanos as int) && nanos < 1_000_000_000 && days >= 0
            ==> match later {
            Some(t) => t.0 == secs + 86_400 * days && t.1 == nanos,
            None => secs + 86_400 * days > MAX_SECONDS,
        },
{
    let start = chrono::DateTime::from_timestamp(secs, nanos)?;
    let later = start.checked_add_signed(chrono::TimeDelta::try_days(days)?)?;
    Some((later.timestamp(), later.timestamp_subsec_nanos()))
}

/// chrono's `signed_duration_since` between two points in time that it can
/// hold, read through `num_seconds` and `subsec_nanos`. Outside leap seconds
/// it is the difference in nanoseconds, parted into seconds and nanoseconds
/// of one sign.
#[verifier::external_body]
fn chrono_elapsed(start_secs: i64, start_nanos: u32, end_secs: i64, end_nanos: u32) -> (d: Option<
    (i64, i32),
>)
    ensures
        representable(start_secs as int, start_nanos as int) && representable(
            end_secs as int,
            end_nanos as int,
        ) ==> d is Some,
        d matches Some(e) ==> (e.0 as int, e.1 as int) == elapsed_between(
            start_secs as int,
            start_nanos as int,
            end_secs as int,
            end_nanos as int,
        ),
        d matches Some(e) ==> (start_nanos < 1_000_000_000 && end_nanos < 1_000_000_000 ==> (
            e.0 as int,
            e.1 as int,
        ) == elapsed_outside_leap(
            start_secs as int,
            start_nanos as int,
            end_secs as int,
            end_nanos as int,
        )),
{
    let start = chrono::DateTime::from_timestamp(start_secs, start_nanos)?;
    let end = chrono::DateTime::from_timestamp(end_secs, end_nanos)?;
    let delta = end.signed_duration_since(start);
    Some((delta.num_seconds(), delta.subsec_nanos()))
}

/// A point in time that chrono can hold, in UTC.
#[derive(Clone, Copy, Debug, PartialEq, Eq)]
pub struct Timestamp {
    secs: i64,
    nanos: u32,
}

/// What a `Timestamp` stands for.
pub struct Instant {
    pub secs: int,
    pub nanos: int,
}

impl View for Timestamp {
    type V = Instant;

    closed spec fn view(&self) -> Instant {
        Instant { secs: self.secs as int, nanos: self.nanos as int }
    }
}

/// Whether `a` lies before `b`.
pub open spec fn earlier(a: Instant, b: Instant) -> bool {
    a.secs < b.secs || (a.secs == b.secs && a.nanos < b.nanos)
}

/// Whether `a` does not lie after `b`.
pub open spec fn not_later(a: Instant, b: Instant) -> bool {
    a.secs < b.secs || (a.secs == b.secs && a.nanos <= b.nanos)
}

impl Timestamp {
    #[verifier::type_invariant]
    spec fn holds(self) -> bool {
        representable(self.secs as int, self.nanos as int)
    }

    /// The point in time `secs` seconds and `nanos` nanoseconds after the
    /// epoch, where chrono can hold it.
    pub fn new(secs: i64, nanos: u32) -> (t: Option<Timestamp>)
        ensures
            t is Some <==> representable(secs as int, nanos as int),
            t matches Some(ts) ==> ts@ == (Instant { secs: secs as int, nanos: nanos as int }),
    {
        if secs < MIN_SECONDS || secs > MAX_SECONDS || nanos >= 2_000_000_000 {
            return None;
        }
        if nanos >= 1_000_000_000 {
            let shifted: i64 = secs - MIN_SECONDS;
            assert(MIN_SECONDS % 60 == 0);
            assert(secs as int % 60 == shifted as int % 60);
            if shifted % 60 != 59 {
                return None;
            }
        }
        Some(Timestamp { secs, nanos })
    }

    /// The whole seconds after the epoch. Every timestamp is one that chrono
    /// can hold.
    pub fn secs(&self) -> (s: i64)
        ensures
            s == self@.secs,
            representable(self@.secs, self@.nanos),
    {
        proof {
            use_type_invariant(self);
        }
        self.secs
    }

    /// The nanoseconds beyond the whole seconds.
    pub fn nanos(&self) -> (n: u32)
        ensures
            n == self@.nanos,
    {
        self.nanos
    }

    /// The clock's reading: a point in time that chrono can hold, and never
    /// one within a leap second.
    pub fn now() -> (t: Timestamp)
        ensures
            representable(t@.secs, t@.nanos),
            t@.nanos < 1_000_000_000,
    {
        let parts = chrono_utc_now();
        Timestamp { secs: parts.0, nanos: parts.1 }
    }

    /// The point in time of a calendar date and time of day in UTC, where
    /// there is one.
    pub fn from_ymd_hms(year: i32, month: u32, day: u32, hour: u32, minute: u32, second: u32) -> (t:
        Option<Timestamp>)
        ensures
            match t {
                Some(ts) => ts@.nanos == 0 && utc_civil_seconds(
                    year as int,
                    month as int,
                    day as int,
                    hour as int,
                    minute as int,
                    second as int,
                ) == Some(ts@.secs),
                None => utc_civil_seconds(
                    year as int,
                    month as int,
                    day as int,
                    hour as int,
                    minute as int,
                    second as int,
                ) is None,
            },
    {
        match chrono_utc_civil(year, month, day, hour, minute, second) {
            Some(secs) => Some(Timestamp { secs, nanos: 0 }),
            None => None,
        }
    }

    /// The point in time `days` whole days later, where chrono can hold it.
    /// Of a point in time within a leap second nothing is said but that
    /// chrono does the sum.
    pub fn plus_days(&self, days: u64) -> (t: Option<Timestamp>)
        ensures
            self@.nanos < 1_000_000_000 ==> (t is Some <==> self@.secs + 86_400 * days
                <= MAX_SECONDS),
            self@.nanos < 1_000_000_000 ==> (t matches Some(ts) ==> ts@ == (Instant {
                secs: self@.secs + 86_400 * days,
                nanos: self@.nanos,
            })),
    {
        proof {
            use_type_invariant(self);
        }
        // Whatever lies further ahead than the whole range is out of it.
        if days > 200_000_000_000 {
            return None;
        }
        match chrono_plus_days(self.secs, self.nanos, days as i64) {
            Some(parts) => Some(Timestamp { secs: parts.0, nanos: parts.1 }),
            None => None,
        }
    }

    /// Whether this point in time lies before the other.
    pub fn is_before(&self, other: &Timestamp) -> (b: bool)
        ensures
            b == earlier(self@, other@),
    {
        self.secs < other.secs || (self.secs == other.secs && self.nanos < other.nanos)
    }

    /// The text `day.month.year hour:minute:second` for this point in time in
    /// UTC.
    pub fn formatted(&self) -> (text: String)
        ensures
            text@ == display_stamp(self@.secs, self@.nanos, 0),
    {
        proof {
            use_type_invariant(self);
        }
        match chrono_format(self.secs, self.nanos, 0, "%d.%m.%Y %H:%M:%S") {
            Some(text) => text,
            None => String::new(),
        }
    }

    /// The time from `self` to `end`: whole seconds, and the nanoseconds
    /// beyond them.
    pub fn elapsed_until(&self, end: &Timestamp) -> (d: Elapsed)
        ensures
            (d.secs as int, d.nanos as int) == elapsed(self@, end@),
    {
        proof {
            use_type_invariant(self);
            use_type_invariant(end);
        }
        match chrono_elapsed(self.secs, self.nanos, end.secs, end.nanos) {
            Some(e) => Elapsed { secs: e.0, nanos: e.1 },
            None => Elapsed { secs: 0, nanos: 0 },
        }
    }
}

/// A length of time: whole seconds, and the nanoseconds beyond them.
#[derive(Clone, Copy, Debug, PartialEq, Eq)]
pub struct Elapsed {
    pub secs: i64,
    pub nanos: i32,
}

/// A point in time together with the offset of the time zone in which it was
/// taken, in seconds east of Greenwich.
#[derive(Clone, Copy, Debug, PartialEq, Eq)]
pub struct LocalTimestamp {
    instant: Timestamp,
    offset: i32,
}

/// What a `LocalTimestamp` stands for.
pub struct LocalInstant {
    pub secs: int,
    pub nanos: int,
    pub offset: int,
}

impl View for LocalTimestamp {
    type V = LocalInstant;

    closed spec fn view(&self) -> LocalInstant {
        LocalInstant {
            secs: self.instant@.secs,
            nanos: self.instant@.nanos,
            offset: self.offset as int,
        }
    }
}

impl LocalTimestamp {
    #[verifier::type_invariant]
    spec fn holds(self) -> bool {
        valid_offset(self.offset as int)
    }

    /// `instant` as seen `offset` seconds east of Greenwich, where that is an
    /// offset that a time zone can have.
    pub fn new(instant: Timestamp, offset: i32) -> (t: Option<LocalTimestamp>)
        ensures
            t is Some <==> valid_offset(offset as int),
            t matches Some(ts) ==> ts@ == (LocalInstant {
                secs: instant@.secs,
                nanos: instant@.nanos,
                offset: offset as int,
            }),
    {
        if -86_400 < offset && offset < 86_400 {
            Some(LocalTimestamp { instant, offset })
        } else {
            None
        }
    }

    /// The clock's reading in the machine's time zone: a point in time that
    /// chrono can hold, never one within a leap second, with an offset that
    /// a time zone can have.
    pub fn now() -> (t: LocalTimestamp)
        ensures
            representable(t@.secs, t@.nanos),
            t@.nanos < 1_000_000_000,
            valid_offset(t@.offset),
    {
        let parts = chrono_local_now();
        LocalTimestamp { instant: Timestamp { secs: parts.0, nanos: parts.1 }, offset: parts.2 }
    }

    /// The point in time, without its zone.
    pub fn instant(&self) -> (t: Timestamp)
        ensures
            t@.secs == self@.secs,
            t@.nanos == self@.nanos,
    {
        self.instant
    }

    /// The offset of the zone, in seconds east of Greenwich.
    pub fn offset(&self) -> (o: i32)
        ensures
            o == self@.offset,
    {
        self.offset
    }

    /// The text `day.month.year hour:minute:second` for this point in time in
    /// its zone.
    pub fn formatted(&self) -> (text: String)
        ensures
            text@ == display_stamp(self@.secs, self@.nanos, self@.offset),
    {
        proof {
            use_type_invariant(self);
            use_type_invariant(&self.instant);
        }
        match chrono_format(self.instant.secs, self.instant.nanos, self.offset, "%d.%m.%Y %H:%M:%S") {
            Some(text) => text,
            None => String::new(),
        }
    }

    /// The text `year-month-dayThour-minute-second` for this point in time in
    /// its zone, as file names carry it.
    pub fn file_stamp(&self) -> (text: String)
        ensures
            text@ == file_stamp(self@.secs, self@.nanos, self@.offset),
    {
        proof {
            use_type_invariant(self);
            use_type_invariant(&self.instant);
        }
        match chrono_format(self.instant.secs, self.instant.nanos, self.offset, "%Y-%m-%dT%H-%M-%S") {
            Some(text) => text,
            None => String::new(),
        }
    }
}

} // verus!
