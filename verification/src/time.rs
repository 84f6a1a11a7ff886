//! Instants in UTC.

use vstd::prelude::*;

verus! {

/// The first second that an instant can name (the year -262143).
pub const MIN_SECS: i64 = -8_334_601_228_800;

/// The last second that an instant can name (the year 262142).
pub const MAX_SECS: i64 = 8_210_266_876_799;

/// Midnight on the first day of the year 0.
pub const YEAR_0_SECS: i64 = -62_167_219_200;

/// The last second of the year 9999.
pub const YEAR_9999_SECS: i64 = 253_402_300_799;

/// Seconds in a day.
pub const SECS_PER_DAY: i64 = 86_400;

/// Nanoseconds in a second.
pub const NANOS_PER_SEC: u32 = 1_000_000_000;

/// An instant: whole seconds since the Unix epoch, and the nanoseconds since the
/// last of them. Within a leap second the nanoseconds run on past a second.
#[derive(Debug, Clone, Copy, PartialEq, Eq, Hash, Structural)]
pub struct Timestamp {
    pub secs: i64,
    pub nanos: u32,
}

impl Timestamp {
    /// The instant exists on the calendar.
    pub open spec fn valid(self) -> bool {
        &&& MIN_SECS <= self.secs <= MAX_SECS
        &&& self.nanos < 2 * NANOS_PER_SEC
        &&& self.nanos >= NANOS_PER_SEC ==> (self.secs as int) % 60 == 59
    }

    /// The instant lies in the years 0 to 9999.
    pub open spec fn has_four_digit_year(self) -> bool {
        YEAR_0_SECS <= self.secs <= YEAR_9999_SECS
    }

    /// `self` is earlier than `other`.
    pub open spec fn before(self, other: Timestamp) -> bool {
        self.secs < other.secs || (self.secs == other.secs && self.nanos < other.nanos)
    }

    /// `self` is not later than `other`.
    pub open spec fn at_or_before(self, other: Timestamp) -> bool {
        !other.before(self)
    }

    /// Whether `self` is earlier than `other`.
    pub fn is_before(self, other: Timestamp) -> (r: bool)
        ensures
            r == self.before(other),
    {
        self.secs < other.secs || (self.secs == other.secs && self.nanos < other.nanos)
    }

    /// Whether `self` is not later than `other`.
    pub fn is_at_or_before(self, other: Timestamp) -> (r: bool)
        ensures
            r == self.at_or_before(other),
    {
        !other.is_before(self)
    }

    /// The instant `days` days earlier.
    pub fn days_earlier(self, days: u32) -> (r: Timestamp)
        requires
            MIN_SECS + days * SECS_PER_DAY <= self.secs,
        ensures
            r.secs == self.secs - days * SECS_PER_DAY,
            r.nanos == self.nanos,
    {
        assert(0 <= days * SECS_PER_DAY <= u32::MAX * SECS_PER_DAY) by (nonlinear_arith)
            requires
                0 <= days <= u32::MAX,
        ;
        Timestamp { secs: self.secs - days as i64 * SECS_PER_DAY, nanos: self.nanos }
    }
}

/// Instants are totally ordered: of any two, exactly one is earlier or they are
/// the same, and "earlier" is transitive.
pub proof fn instants_are_totally_ordered(a: Timestamp, b: Timestamp, c: Timestamp)
    ensures
        a.before(b) || b.before(a) || a == b,
        !(a.before(b) && b.before(a)),
        !a.before(a),
        a.before(b) && b.before(c) ==> a.before(c),
{
}

/// The instant that an RFC 3339 text names, as its seconds and nanoseconds, or
/// the reason why it names none.
pub uninterp spec fn rfc3339_instant(text: Seq<char>) -> Result<(int, int), Seq<char>>;

/// The RFC 3339 text of the instant with these seconds and nanoseconds.
pub uninterp spec fn rfc3339_text(secs: int, nanos: int) -> Seq<char>;

/// The RFC 3339 text names the instant `t`.
pub open spec fn names_instant(text: Seq<char>, t: Timestamp) -> bool {
    rfc3339_instant(text) matches Ok(i) && i == (t.secs as int, t.nanos as int)
}

/// `chrono::DateTime::parse_from_rfc3339`, converted to UTC. An accepted text has
/// a four-digit year and a zone offset of less than a day.
#[verifier::external_body]
pub(crate) fn parse_rfc3339(text: &str) -> (r: Result<Timestamp, String>)
    ensures
        match r {
            Ok(t) => t.valid() && names_instant(text@, t),
            Err(reason) => (rfc3339_instant(text@) matches Err(e) && e == reason@),
        },
{
    match chrono::DateTime::parse_from_rfc3339(text) {
        Ok(t) => Ok(Timestamp { secs: t.timestamp(), nanos: t.timestamp_subsec_nanos() }),
        Err(e) => Err(e.to_string()),
    }
}

/// `chrono::DateTime::to_rfc3339` of the UTC instant. Within the years 0 to 9999
/// the text is one that `parse_from_rfc3339` reads back as the same instant;
/// outside them the year is written with a sign, which it refuses.
#[verifier::external_body]
pub(crate) fn format_rfc3339(t: Timestamp) -> (text: String)
    requires
        t.valid(),
    ensures
        text@ == rfc3339_text(t.secs as int, t.nanos as int),
        t.has_four_digit_year() ==> names_instant(text@, t),
{
    chrono::DateTime::from_timestamp(t.secs, t.nanos).unwrap().to_rfc3339()
}

/// `chrono::Utc::now`: the current time. It depends on the machine's clock, so
/// nothing is said of it but that it is a calendar instant since the epoch and,
/// as that clock knows none, within no leap second.
#[verifier::external_body]
pub(crate) fn utc_now() -> (r: Timestamp)
    ensures
        r.valid(),
        r.secs >= 0,
        r.nanos < NANOS_PER_SEC,
{
    let now = chrono::Utc::now();
    Timestamp { secs: now.timestamp(), nanos: now.timestamp_subsec_nanos() }
}

/// Instants follow the clock: of two, the one with fewer seconds is earlier, and
/// within a second the one with fewer nanoseconds.
pub proof fn instants_follow_the_clock(a: Timestamp, b: Timestamp, earlier: bool, no_later: bool)
    requires
        call_ensures(Timestamp::is_before, (a, b), earlier),
        call_ensures(Timestamp::is_at_or_before, (a, b), no_later),
    ensures
        a.secs < b.secs ==> earlier && no_later && a.before(b) && a.at_or_before(b),
        a.secs > b.secs ==> !earlier && !no_later && !a.before(b) && !a.at_or_before(b),
        a.secs == b.secs ==> (earlier <==> a.nanos < b.nanos) && (a.before(b) <==> a.nanos
            < b.nanos),
        a.secs == b.secs ==> (no_later <==> a.nanos <= b.nanos) && (a.at_or_before(b) <==> a.nanos
            <= b.nanos),
{
}

/// Going back some days is undone by going forward as many times the seconds of a
/// day, and keeps the time of day.
pub proof fn days_earlier_are_whole_days(t: Timestamp, days: u32, r: Timestamp)
    requires
        call_ensures(Timestamp::days_earlier, (t, days), r),
    ensures
        r.secs + days * 86_400 == t.secs,
        r.nanos == t.nanos,
{
}

} // verus!
