//! Points in time: reading the clock, arithmetic in seconds, and the text forms that the tables
//! hold.

use vstd::prelude::*;
use vstd::string::*;
use crate::text::{concat2, outcome, text_le, Text};

verus! {

/// The first second of the calendar that `chrono` can represent.
pub const MIN_SECS: i64 = -8_334_601_228_800;

/// The last second of the calendar that `chrono` can represent.
pub const MAX_SECS: i64 = 8_210_266_876_799;

/// The first second of the year 0.
pub const YEAR_0: i64 = -62_167_219_200;

/// The last second of the year 9999.
pub const YEAR_9999_END: i64 = 253_402_300_799;

pub const NANOS_PER_SEC: u32 = 1_000_000_000;

/// A point in time in UTC: whole seconds since 1970-01-01 00:00:00, and nanoseconds within the
/// second. A leap second is the second before it with a billion nanoseconds or more.
#[derive(Clone, Copy, Debug, PartialEq, Eq, Structural)]
pub struct Timestamp {
    pub(crate) secs: i64,
    pub(crate) nanos: u32,
}

/// Whether seconds and nanoseconds name a point of the calendar.
pub open spec fn on_calendar(secs: int, nanos: int) -> bool {
    &&& MIN_SECS <= secs <= MAX_SECS
    &&& 0 <= nanos < 2 * NANOS_PER_SEC
    &&& nanos >= NANOS_PER_SEC ==> secs % 60 == 59
}

impl Timestamp {
    #[verifier::type_invariant]
    spec fn valid(self) -> bool {
        on_calendar(self.secs as int, self.nanos as int)
    }

    /// Seconds since 1970-01-01 00:00:00 UTC.
    pub closed spec fn second(self) -> int {
        self.secs as int
    }

    /// Nanoseconds within the second.
    pub closed spec fn nano(self) -> int {
        self.nanos as int
    }

    /// Not within a leap second.
    pub open spec fn ordinary(self) -> bool {
        self.nano() < NANOS_PER_SEC
    }

    /// The point of time with these seconds and nanoseconds.
    pub closed spec fn at(secs: int, nanos: int) -> Timestamp {
        Timestamp { secs: secs as i64, nanos: nanos as u32 }
    }

    /// The same point of time without its fraction of a second; a leap second stays one.
    pub open spec fn whole_second(self) -> Timestamp {
        Timestamp::at(
            self.second(),
            if self.ordinary() {
                0
            } else {
                NANOS_PER_SEC as int
            },
        )
    }

    /// `self` is later than `other`.
    pub open spec fn after(self, other: Timestamp) -> bool {
        self.second() > other.second() || (self.second() == other.second() && self.nano()
            > other.nano())
    }

    /// The point of time with these seconds and nanoseconds, where the calendar has it.
    pub fn new(secs: i64, nanos: u32) -> (r: Option<Timestamp>)
        ensures
            r == if on_calendar(secs as int, nanos as int) {
                Some(Timestamp::at(secs as int, nanos as int))
            } else {
                None
            },
    {
        if secs < MIN_SECS || secs > MAX_SECS || nanos >= 2_000_000_000 {
            return None;
        }
        if nanos >= NANOS_PER_SEC {
            let into_minute: i64 = (secs - MIN_SECS) % 60;
            proof {
                assert(MIN_SECS as int % 60 == 0);
                assert((secs as int) % 60 == (secs - MIN_SECS) % 60);
            }
            if into_minute != 59 {
                return None;
            }
        }
        Some(Timestamp { secs, nanos })
    }

    pub fn seconds(&self) -> (r: i64)
        ensures
            r == self.second(),
    {
        self.secs
    }

    pub fn nanoseconds(&self) -> (r: u32)
        ensures
            r == self.nano(),
    {
        self.nanos
    }

    /// The same point of time, known to lie on the calendar.
    pub(crate) fn verified(&self) -> (r: Timestamp)
        ensures
            r == *self,
            on_calendar(r.second(), r.nano()),
    {
        proof {
            use_type_invariant(self);
        }
        *self
    }

    /// Whether `self` is later than `other`.
    pub fn is_after(&self, other: &Timestamp) -> (r: bool)
        ensures
            r == self.after(*other),
    {
        self.secs > other.secs || (self.secs == other.secs && self.nanos > other.nanos)
    }
}

/// A point of time has the parts that it is made of, and is made of its parts.
pub broadcast proof fn lemma_timestamp_parts(secs: int, nanos: int)
    requires
        on_calendar(secs, nanos),
    ensures
        (#[trigger] Timestamp::at(secs, nanos)).second() == secs,
        Timestamp::at(secs, nanos).nano() == nanos,
{
}

impl DeepView for Timestamp {
    type V = Timestamp;

    open spec fn deep_view(&self) -> Timestamp {
        *self
    }
}

// ---- the clock ------------------------------------------------------------------------------

/// A moment that the clock can show: not before 1970, and not within a leap second.
pub open spec fn clock_shows(now: Timestamp) -> bool {
    now.ordinary() && now.second() >= 0
}

/// `chrono::Utc::now`: the machine's clock, which the source reads as seconds and nanoseconds since
/// 1970 and so never within a leap second. Which moment it gives is left open.
#[verifier::external_body]
pub(crate) fn utc_now() -> (r: Timestamp)
    ensures
        r.ordinary(),
        r.second() >= 0,
{
    let now = chrono::Utc::now();
    Timestamp { secs: now.timestamp(), nanos: now.timestamp_subsec_nanos() }
}

// ---- arithmetic -----------------------------------------------------------------------------

/// What `chrono` makes of a time and a number of seconds added to it: seconds and nanoseconds of
/// the sum, where the calendar has it.
pub uninterp spec fn chrono_add(secs: int, nanos: int, delta: int) -> Option<(int, int)>;

/// The point of time that a pair of seconds and nanoseconds names.
pub open spec fn time_of(parts: Option<(int, int)>) -> Option<Timestamp> {
    match parts {
        Some((secs, nanos)) => Some(Timestamp::at(secs, nanos)),
        None => None,
    }
}

/// The time `delta` seconds after `t`, where the calendar has it.
pub open spec fn plus_seconds(t: Timestamp, delta: int) -> Option<Timestamp> {
    if t.ordinary() {
        if MIN_SECS <= t.second() + delta <= MAX_SECS {
            Some(Timestamp::at(t.second() + delta, t.nano()))
        } else {
            None
        }
    } else {
        time_of(chrono_add(t.second(), t.nano(), delta))
    }
}

/// `chrono::DateTime::checked_add_signed` with `chrono::TimeDelta::try_seconds`: outside a leap
/// second the seconds are added and the nanoseconds kept, and there is no result exactly where the
/// sum leaves the calendar. Of a start within a leap second the result is only named.
#[verifier::external_body]
pub(crate) fn add_seconds(t: Timestamp, delta: i64) -> (r: Option<Timestamp>)
    requires
        on_calendar(t.second(), t.nano()),
    ensures
        r == plus_seconds(t, delta as int),
        r == time_of(chrono_add(t.second(), t.nano(), delta as int)),
{
    let at = chrono::DateTime::from_timestamp(t.secs, t.nanos).unwrap();
    let delta = chrono::TimeDelta::try_seconds(delta)?;
    let sum = at.checked_add_signed(delta)?;
    Some(Timestamp { secs: sum.timestamp(), nanos: sum.timestamp_subsec_nanos() })
}

/// What `chrono` gives as the time from one point to another: whole seconds and the nanoseconds
/// left over, both rounded towards zero.
pub uninterp spec fn chrono_between(secs: int, nanos: int, from_secs: int, from_nanos: int) -> (
    int,
    int,
);

/// Division that rounds towards zero.
pub open spec fn div_to_zero(a: int, b: int) -> int {
    if a >= 0 {
        a / b
    } else {
        -((-a) / b)
    }
}

/// Nanoseconds from `from` to `t`, outside leap seconds.
pub open spec fn nanos_between(t: Timestamp, from: Timestamp) -> int {
    (t.second() - from.second()) * NANOS_PER_SEC + (t.nano() - from.nano())
}

/// The time from `from` to `t` as whole seconds and the nanoseconds left over, both rounded
/// towards zero.
pub open spec fn between(t: Timestamp, from: Timestamp) -> (int, int) {
    if t.ordinary() && from.ordinary() {
        let total = nanos_between(t, from);
        let whole = div_to_zero(total, NANOS_PER_SEC as int);
        (whole, total - whole * NANOS_PER_SEC)
    } else {
        chrono_between(t.second(), t.nano(), from.second(), from.nano())
    }
}

/// `chrono::DateTime::signed_duration_since` with `chrono::TimeDelta::num_seconds` and
/// `subsec_nanos`: outside leap seconds the difference, split into whole seconds and nanoseconds
/// that are both rounded towards zero. With a leap second the result is only named.
#[verifier::external_body]
pub(crate) fn time_between(t: Timestamp, from: Timestamp) -> (r: (i64, i32))
    requires
        on_calendar(t.second(), t.nano()),
        on_calendar(from.second(), from.nano()),
    ensures
        (r.0 as int, r.1 as int) == between(t, from),
        (r.0 as int, r.1 as int) == chrono_between(
            t.second(),
            t.nano(),
            from.second(),
            from.nano(),
        ),
{
    let later = chrono::DateTime::from_timestamp(t.secs, t.nanos).unwrap();
    let earlier = chrono::DateTime::from_timestamp(from.secs, from.nanos).unwrap();
    let delta = later.signed_duration_since(earlier);
    (delta.num_seconds(), delta.subsec_nanos())
}

// ---- text forms -----------------------------------------------------------------------------

/// The form in which the tables hold a time: seconds, no fraction, no zone.
pub const DATETIME_FORMAT: &'static str = "%Y-%m-%d %H:%M:%S";

/// What `chrono` writes for a time in a format.
pub uninterp spec fn chrono_format(secs: int, nanos: int, format: Text) -> Text;

/// What `chrono` reads from a text in a format: seconds and nanoseconds.
pub uninterp spec fn chrono_parse(text: Text, format: Text) -> Option<(int, int)>;

/// `t` as the tables hold it.
pub open spec fn time_text(t: Timestamp) -> Text {
    chrono_format(t.second(), t.nano(), DATETIME_FORMAT@)
}

/// In the years 0 to 9999 and outside leap seconds: there the text form has four digits of year.
pub open spec fn four_digit_year(t: Timestamp) -> bool {
    t.ordinary() && YEAR_0 <= t.second() <= YEAR_9999_END
}

/// The whole second of a time that reads back from its text.
pub open spec fn reads_as_second(parts: Option<(int, int)>, t: Timestamp) -> bool {
    time_of(parts) == Some(t.whole_second())
}

/// `chrono::DateTime::format`, written out with `to_string`. A year outside 0 to 9999 is written
/// with its sign and read with it, and a leap second is written and read as second 60, so reading
/// the text back gives the whole second. In the years 0 to 9999 every field has a fixed width, so
/// the texts of two such times are ordered as the times are.
#[verifier::external_body]
pub(crate) fn format_utc(t: Timestamp, format: &str) -> (r: String)
    requires
        on_calendar(t.second(), t.nano()),
        format@ == DATETIME_FORMAT@,
    ensures
        r@ == chrono_format(t.second(), t.nano(), format@),
        reads_as_second(chrono_parse(r@, "%Y-%m-%d %H:%M:%S%.f"@), t),
        forall|u: Timestamp|
            four_digit_year(t) && four_digit_year(u) ==> (text_le(r@, #[trigger] time_text(u))
                <==> t.second() <= u.second()),
{
    let at = chrono::DateTime::from_timestamp(t.secs, t.nanos).unwrap();
    at.format(format).to_string()
}

/// `chrono::NaiveDateTime::parse_from_str` with `and_utc`: the result is only named. A text that
/// does not match the format, or a time that the calendar lacks, gives nothing.
#[verifier::external_body]
pub(crate) fn parse_naive(text: &str, format: &str) -> (r: Option<Timestamp>)
    ensures
        r == time_of(chrono_parse(text@, format@)),
{
    let naive = chrono::NaiveDateTime::parse_from_str(text, format).ok()?;
    let at = naive.and_utc();
    Some(Timestamp { secs: at.timestamp(), nanos: at.timestamp_subsec_nanos() })
}

/// The forms of a time that are read, in the order in which they are tried: with and without a
/// fraction of a second, with a blank or a `T` before the hours, and with a trailing `Z`.
pub open spec fn datetime_formats() -> Seq<Text> {
    seq![
        "%Y-%m-%d %H:%M:%S%.f"@,
        "%Y-%m-%d %H:%M:%S"@,
        "%Y-%m-%dT%H:%M:%S%.f"@,
        "%Y-%m-%dT%H:%M:%S"@,
        "%Y-%m-%dT%H:%M:%S%.fZ"@,
        "%Y-%m-%dT%H:%M:%SZ"@,
    ]
}

/// What the first of `formats` that fits reads from `text`.
pub open spec fn first_reading(text: Text, formats: Seq<Text>) -> Option<Timestamp>
    decreases formats.len(),
{
    if formats.len() == 0 {
        None
    } else if chrono_parse(text, formats[0]) is Some {
        time_of(chrono_parse(text, formats[0]))
    } else {
        first_reading(text, formats.drop_first())
    }
}

/// The time that `text` names, in the first form that fits, or the message that none does.
pub open spec fn time_in(text: Text) -> Result<Timestamp, Text> {
    match first_reading(text, datetime_formats()) {
        Some(t) => Ok(t),
        None => Err("Failed to parse datetime: "@ + text),
    }
}

/// Writes a time as the tables hold it. It reads back as the same time without its fraction of a
/// second.
pub fn format_datetime(t: &Timestamp) -> (r: String)
    ensures
        r@ == time_text(*t),
        time_in(r@) == Ok::<Timestamp, Text>(t.whole_second()),
        forall|u: Timestamp|
            four_digit_year(*t) && four_digit_year(u) ==> (text_le(r@, #[trigger] time_text(u))
                <==> t.second() <= u.second()),
{
    proof {
        use_type_invariant(t);
        reveal_with_fuel(first_reading, 2);
    }
    format_utc(*t, DATETIME_FORMAT)
}

/// Reads a time: ISO 8601 or the form that the tables hold.
pub fn parse_datetime(s: &str) -> (r: Result<Timestamp, String>)
    ensures
        outcome(r) == time_in(s@),
{
    proof {
        reveal_with_fuel(first_reading, 7);
        let f = datetime_formats();
        assert(f.drop_first()[0] == f[1]);
        assert(f.drop_first().drop_first()[0] == f[2]);
        assert(f.drop_first().drop_first().drop_first()[0] == f[3]);
        assert(f.drop_first().drop_first().drop_first().drop_first()[0] == f[4]);
        assert(f.drop_first().drop_first().drop_first().drop_first().drop_first()[0] == f[5]);
    }
    if let Some(t) = parse_naive(s, "%Y-%m-%d %H:%M:%S%.f") {
        return Ok(t);
    }
    if let Some(t) = parse_naive(s, "%Y-%m-%d %H:%M:%S") {
        return Ok(t);
    }
    if let Some(t) = parse_naive(s, "%Y-%m-%dT%H:%M:%S%.f") {
        return Ok(t);
    }
    if let Some(t) = parse_naive(s, "%Y-%m-%dT%H:%M:%S") {
        return Ok(t);
    }
    if let Some(t) = parse_naive(s, "%Y-%m-%dT%H:%M:%S%.fZ") {
        return Ok(t);
    }
    if let Some(t) = parse_naive(s, "%Y-%m-%dT%H:%M:%SZ") {
        return Ok(t);
    }
    Err(concat2("Failed to parse datetime: ", s))
}

impl Timestamp {
    /// What the clock shows.
    pub fn now() -> (r: Timestamp)
        ensures
            r.ordinary(),
            r.second() >= 0,
    {
        utc_now()
    }

    /// The time `delta` seconds later, where the calendar has it.
    pub fn plus(&self, delta: i64) -> (r: Option<Timestamp>)
        ensures
            r == plus_seconds(*self, delta as int),
    {
        proof {
            use_type_invariant(self);
        }
        add_seconds(*self, delta)
    }

    /// The time from `from` to `self` as whole seconds and nanoseconds, rounded towards zero.
    pub fn time_since(&self, from: &Timestamp) -> (r: (i64, i32))
        ensures
            (r.0 as int, r.1 as int) == between(*self, *from),
    {
        proof {
            use_type_invariant(self);
            use_type_invariant(from);
        }
        time_between(*self, *from)
    }

    /// Whole seconds from `from` to `self`, rounded towards zero.
    pub fn seconds_since(&self, from: &Timestamp) -> (r: i64)
        ensures
            r == between(*self, *from).0,
    {
        self.time_since(from).0
    }
}

} // verus!
