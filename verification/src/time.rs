//! Instants on the UTC time line, as the `chrono` crate counts them, and the
//! calendar facts that the backtester reads off them.

use chrono::Datelike;
use chrono::Timelike;
use vstd::prelude::*;

verus! {

/// The first second that `chrono` can name: the start of the year -262143.
pub const FIRST_SECOND: i64 = -8_334_601_228_800;

/// The last second that `chrono` can name: the end of the year 262142.
pub const LAST_SECOND: i64 = 8_210_266_876_799;

/// Nanoseconds in a second.
pub const NANOS_PER_SECOND: u32 = 1_000_000_000;

/// A point in time: seconds since 1970-01-01T00:00:00Z and nanoseconds into
/// that second. In a leap second the nanoseconds run on past one second.
pub struct TimePoint {
    pub secs: int,
    pub nanos: nat,
}

impl TimePoint {
    /// Within the range of `chrono`, and past one second only in the last
    /// second of a minute.
    pub open spec fn valid(self) -> bool {
        &&& FIRST_SECOND <= self.secs <= LAST_SECOND
        &&& self.nanos < 2 * NANOS_PER_SECOND
        &&& self.nanos >= NANOS_PER_SECOND ==> self.secs % 60 == 59
    }

    /// Not inside a leap second.
    pub open spec fn regular(self) -> bool {
        self.nanos < NANOS_PER_SECOND
    }

    /// The hour of the day, from 0.
    pub open spec fn hour(self) -> int {
        (self.secs % 86_400) / 3_600
    }

    /// The minute of the hour, from 0.
    pub open spec fn minute(self) -> int {
        (self.secs % 3_600) / 60
    }

    /// The day of the week, from 1 for Monday to 7 for Sunday.
    pub open spec fn weekday(self) -> int {
        (self.secs / 86_400 + 3) % 7 + 1
    }

    /// The day, counted from 1 for the first of January of the year 1.
    pub open spec fn day(self) -> int {
        self.secs / 86_400 + 719_163
    }

    /// `self` is not after `other`.
    pub open spec fn at_or_before(self, other: TimePoint) -> bool {
        self.secs < other.secs || (self.secs == other.secs && self.nanos <= other.nanos)
    }
}

/// How the opening time of a trade is written: the date and the minute.
pub const STAMP_FORMAT: &'static str = "%Y-%m-%d %H:%M";

/// What `chrono` writes for a UTC instant under a format.
pub uninterp spec fn formatted_time(secs: int, nanos: nat, format: Seq<char>) -> Seq<char>;

/// What `chrono` writes for a UTC instant as an RFC 3339 date and time.
pub uninterp spec fn rfc3339_stamp(secs: int, nanos: nat) -> Seq<char>;

/// The seconds and nanoseconds that `chrono` reads from an RFC 3339 date and
/// time, or the text of the error that it reports.
pub uninterp spec fn read_rfc3339(text: Seq<char>) -> Result<(int, nat), Seq<char>>;

/// The day (see `TimePoint::day`) that `chrono` reads from a date such as
/// `2024-01-31`, or the text of the error that it reports.
pub uninterp spec fn read_date(text: Seq<char>) -> Result<int, Seq<char>>;

/// An instant in UTC.
#[derive(Clone, Copy, Debug, PartialEq, Eq)]
pub struct Instant {
    secs: i64,
    nanos: u32,
}

impl View for Instant {
    type V = TimePoint;

    closed spec fn view(&self) -> TimePoint {
        TimePoint { secs: self.secs as int, nanos: self.nanos as nat }
    }
}

impl Instant {
    #[verifier::type_invariant]
    closed spec fn well_formed(self) -> bool {
        self@.valid()
    }

    /// The instant at these seconds and nanoseconds, or `None` where they name
    /// none.
    pub fn new(secs: i64, nanos: u32) -> (res: Option<Instant>)
        ensures
            ({
                let t = TimePoint { secs: secs as int, nanos: nanos as nat };
                match res {
                    Some(i) => t.valid() && i@ == t,
                    None => !t.valid(),
                }
            }),
    {
        if secs < FIRST_SECOND || secs > LAST_SECOND || nanos >= 2_000_000_000 {
            None
        } else if nanos >= NANOS_PER_SECOND && seconds_into(secs, 60) != 59 {
            None
        } else {
            Some(Instant { secs, nanos })
        }
    }

    /// Whole seconds since 1970-01-01T00:00:00Z.
    pub fn secs(&self) -> (res: i64)
        ensures
            res == self@.secs,
            self@.valid(),
    {
        proof {
            use_type_invariant(self);
        }
        self.secs
    }

    /// Nanoseconds into that second.
    pub fn nanos(&self) -> (res: u32)
        ensures
            res == self@.nanos,
            self@.valid(),
    {
        proof {
            use_type_invariant(self);
        }
        self.nanos
    }

    /// `self` is not after `other`.
    pub fn at_or_before(&self, other: &Instant) -> (res: bool)
        ensures
            res == self@.at_or_before(other@),
    {
        self.secs < other.secs || (self.secs == other.secs && self.nanos <= other.nanos)
    }

    /// The hour of the day, from `chrono`'s `Timelike::hour`.
    #[verifier::external_body]
    pub(crate) fn hour(&self) -> (res: u32)
        ensures
            res == self@.hour(),
    {
        chrono::DateTime::from_timestamp(self.secs, self.nanos).unwrap().hour()
    }

    /// The minute of the hour, from `chrono`'s `Timelike::minute`.
    #[verifier::external_body]
    pub(crate) fn minute(&self) -> (res: u32)
        ensures
            res == self@.minute(),
    {
        chrono::DateTime::from_timestamp(self.secs, self.nanos).unwrap().minute()
    }

    /// The day of the week, from `chrono`'s `Datelike::weekday` and
    /// `Weekday::number_from_monday`.
    #[verifier::external_body]
    pub(crate) fn weekday(&self) -> (res: u32)
        ensures
            res == self@.weekday(),
    {
        chrono::DateTime::from_timestamp(self.secs, self.nanos).unwrap().weekday().number_from_monday()
    }

    /// The calendar day, from `chrono`'s `DateTime::date_naive` and
    /// `Datelike::num_days_from_ce`.
    #[verifier::external_body]
    pub(crate) fn day(&self) -> (res: i32)
        ensures
            res == self@.day(),
    {
        chrono::DateTime::from_timestamp(self.secs, self.nanos).unwrap().date_naive().num_days_from_ce()
    }

    /// The instant as text, from `chrono`'s `DateTime::format`. Only the one
    /// format is admitted: `chrono` panics on some others.
    #[verifier::external_body]
    pub(crate) fn stamp(&self, format: &str) -> (res: String)
        requires
            format@ == STAMP_FORMAT@,
        ensures
            res@ == formatted_time(self@.secs, self@.nanos, format@),
    {
        let t = chrono::DateTime::from_timestamp(self.secs, self.nanos).unwrap();
        t.format(format).to_string()
    }

    /// The instant as RFC 3339 text, from `chrono`'s `DateTime::to_rfc3339`.
    #[verifier::external_body]
    pub(crate) fn to_rfc3339(&self) -> (res: String)
        ensures
            res@ == rfc3339_stamp(self@.secs, self@.nanos),
    {
        chrono::DateTime::from_timestamp(self.secs, self.nanos).unwrap().to_rfc3339()
    }

    /// The instant `minutes` earlier, from `chrono`'s
    /// `DateTime::checked_sub_signed`; `None` where that lies outside the range
    /// that `chrono` can name.
    #[verifier::external_body]
    pub(crate) fn minutes_earlier(&self, minutes: i64) -> (res: Option<Instant>)
        requires
            self@.regular(),
        ensures
            ({
                let secs = self@.secs - 60 * minutes;
                match res {
                    Some(i) => FIRST_SECOND <= secs <= LAST_SECOND && i@ == (TimePoint {
                        secs,
                        nanos: self@.nanos,
                    }),
                    None => !(FIRST_SECOND <= secs <= LAST_SECOND),
                }
            }),
    {
        let t = chrono::DateTime::from_timestamp(self.secs, self.nanos).unwrap();
        let r = t.checked_sub_signed(chrono::TimeDelta::try_minutes(minutes)?)?;
        Some(Instant { secs: r.timestamp(), nanos: r.timestamp_subsec_nanos() })
    }

    /// Reads an instant with `chrono`'s `DateTime::parse_from_rfc3339`; the
    /// error is the text that `chrono` shows for its own.
    #[verifier::external_body]
    pub(crate) fn parse_rfc3339(text: &str) -> (res: Result<Instant, String>)
        ensures
            match res {
                Ok(i) => read_rfc3339(text@) == Ok::<(int, nat), Seq<char>>((i@.secs, i@.nanos)),
                Err(e) => read_rfc3339(text@) == Err::<(int, nat), Seq<char>>(e@),
            },
    {
        match chrono::DateTime::parse_from_rfc3339(text) {
            Ok(t) => Ok(Instant { secs: t.timestamp(), nanos: t.timestamp_subsec_nanos() }),
            Err(e) => Err(e.to_string()),
        }
    }
}

/// Seconds past the last multiple of `unit`.
fn seconds_into(secs: i64, unit: i64) -> (res: i64)
    requires
        unit > 0,
    ensures
        res == secs as int % unit as int,
{
    let r = secs.checked_rem_euclid(unit);
    r.unwrap()
}

/// Reads a calendar day with `chrono`'s `FromStr` for `NaiveDate`; the error is
/// the text that `chrono` shows for its own.
#[verifier::external_body]
pub(crate) fn parse_date(text: &str) -> (res: Result<i32, String>)
    ensures
        match res {
            Ok(d) => read_date(text@) == Ok::<int, Seq<char>>(d as int),
            Err(e) => read_date(text@) == Err::<int, Seq<char>>(e@),
        },
{
    match text.parse::<chrono::NaiveDate>() {
        Ok(d) => Ok(d.num_days_from_ce()),
        Err(e) => Err(e.to_string()),
    }
}

/// Instants are ordered by their seconds and, within a second, by their
/// nanoseconds: an instant is not after itself, of two instants one is not after
/// the other, and both are not after each other only where they are the same.
pub proof fn law_instants_are_in_order(a: TimePoint, b: TimePoint)
    ensures
        a.at_or_before(a),
        a.at_or_before(b) || b.at_or_before(a),
        a.at_or_before(b) && b.at_or_before(a) ==> a == b,
        a.secs < b.secs ==> a.at_or_before(b) && !b.at_or_before(a),
        a.secs == b.secs && a.nanos < b.nanos ==> a.at_or_before(b) && !b.at_or_before(a),
{
}

} // verus!
