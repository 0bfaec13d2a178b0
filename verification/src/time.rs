//! Points in time with the local wall clock that shows them.
use chrono::{DateTime, FixedOffset, Local, LocalResult, TimeZone};
use vstd::prelude::*;
use vstd::string::*;

use crate::text;

verus! {

/// The first second of the calendar, counted from the start of 1970 in UTC.
pub const FIRST_SECOND: i64 = -8334601228800;

/// The last second of the calendar, counted from the start of 1970 in UTC.
pub const LAST_SECOND: i64 = 8210266876799;

/// The first day of the calendar, counted from the first day of 1970.
pub const FIRST_DAY: i64 = -96465292;

/// The last day of the calendar, counted from the first day of 1970.
pub const LAST_DAY: i64 = 95026236;

pub const SECONDS_PER_DAY: i64 = 86400;

/// A point in time, and by how much the local wall clock is ahead of UTC at that point.
///
/// Two such values are equal when they are the same point in time.
#[derive(Clone, Copy, Debug)]
pub struct LocalDateTime {
    pub(crate) unix_seconds: i64,
    pub(crate) nanos: u32,
    pub(crate) utc_offset_seconds: i32,
}

/// Whether the calendar has a second of UTC, and an offset is less than a day. The wall clock may
/// show the day before the calendar begins, or the day after it ends.
pub open spec fn on_calendar(unix_seconds: int, utc_offset_seconds: int) -> bool {
    &&& -SECONDS_PER_DAY < utc_offset_seconds < SECONDS_PER_DAY
    &&& FIRST_SECOND <= unix_seconds <= LAST_SECOND
}

/// Whether a count of nanoseconds can follow a second. A leap second is a second count of 59
/// with more than a second's worth of nanoseconds.
pub open spec fn nanos_fit(unix_seconds: int, nanos: int) -> bool {
    0 <= nanos < 1_000_000_000 || (nanos < 2_000_000_000 && unix_seconds % 60 == 59)
}

impl LocalDateTime {
    #[verifier::type_invariant]
    pub open(crate) spec fn well_formed(self) -> bool {
        &&& on_calendar(self.unix_seconds as int, self.utc_offset_seconds as int)
        &&& nanos_fit(self.unix_seconds as int, self.nanos as int)
    }

    /// The second of UTC, counted from the start of 1970.
    pub open(crate) spec fn second(self) -> int {
        self.unix_seconds as int
    }

    /// The nanoseconds since that second.
    pub open(crate) spec fn nanosecond(self) -> int {
        self.nanos as int
    }

    /// By how many seconds the wall clock is ahead of UTC.
    pub open(crate) spec fn offset(self) -> int {
        self.utc_offset_seconds as int
    }

    /// The second that the wall clock shows, counted from the start of 1970 on the wall clock.
    pub open spec fn wall_second(self) -> int {
        self.second() + self.offset()
    }

    /// The day that the wall clock shows, counted from the first day of 1970.
    pub open spec fn wall_day(self) -> int {
        self.wall_second() / SECONDS_PER_DAY as int
    }

    /// Whether this point in time is before another.
    pub open spec fn is_before(self, other: Self) -> bool {
        self.second() < other.second() || (self.second() == other.second() && self.nanosecond()
            < other.nanosecond())
    }

    /// Whether this is the same point in time as another.
    pub open spec fn is_same_instant(self, other: Self) -> bool {
        self.second() == other.second() && self.nanosecond() == other.nanosecond()
    }

    /// The point in time that is `nanos` nanoseconds after a second of UTC, with its offset;
    /// nothing if the calendar does not have it.
    pub fn from_parts(unix_seconds: i64, nanos: u32, utc_offset_seconds: i32) -> (made: Option<
        LocalDateTime,
    >)
        ensures
            match made {
                Some(t) => {
                    &&& t.second() == unix_seconds
                    &&& t.nanosecond() == nanos
                    &&& t.offset() == utc_offset_seconds
                    &&& on_calendar(unix_seconds as int, utc_offset_seconds as int)
                    &&& nanos_fit(unix_seconds as int, nanos as int)
                },
                None => !(on_calendar(unix_seconds as int, utc_offset_seconds as int) && nanos_fit(
                    unix_seconds as int,
                    nanos as int,
                )),
            },
    {
        if -86400 < utc_offset_seconds && utc_offset_seconds < 86400 && FIRST_SECOND <= unix_seconds
            && unix_seconds <= LAST_SECOND {
            let leap: bool = nanos < 2_000_000_000 && floor_remainder(unix_seconds, 60) == 59;
            if nanos < 1_000_000_000 || leap {
                return Some(LocalDateTime { unix_seconds, nanos, utc_offset_seconds });
            }
        }
        None
    }

    /// The seconds, the nanoseconds and the offset that make this value.
    pub fn parts(self) -> (parts: (i64, u32, i32))
        ensures
            parts.0 == self.second(),
            parts.1 == self.nanosecond(),
            parts.2 == self.offset(),
    {
        (self.unix_seconds, self.nanos, self.utc_offset_seconds)
    }

    /// The day that the wall clock shows, counted from the first day of 1970.
    pub(crate) fn day(self) -> (day: i64)
        ensures
            day == self.wall_day(),
            FIRST_DAY - 1 <= day <= LAST_DAY + 1,
    {
        proof {
            use_type_invariant(&self);
        }
        let wall: i64 = self.unix_seconds + self.utc_offset_seconds as i64;
        let rest: i64 = floor_remainder(wall, 86400);
        (wall - rest) / 86400
    }

    /// Whether this point in time is before another.
    pub fn before(self, other: LocalDateTime) -> (b: bool)
        ensures
            b == self.is_before(other),
    {
        self.unix_seconds < other.unix_seconds || (self.unix_seconds == other.unix_seconds
            && self.nanos < other.nanos)
    }

    /// Whether this is the same point in time as another.
    pub fn same_instant(self, other: LocalDateTime) -> (b: bool)
        ensures
            b == self.is_same_instant(other),
    {
        self.unix_seconds == other.unix_seconds && self.nanos == other.nanos
    }
}

impl DeepView for LocalDateTime {
    type V = LocalDateTime;

    open spec fn deep_view(&self) -> LocalDateTime {
        *self
    }
}

impl PartialEq for LocalDateTime {
    fn eq(&self, other: &LocalDateTime) -> (b: bool) {
        self.same_instant(*other)
    }
}

impl vstd::std_specs::cmp::PartialEqSpecImpl for LocalDateTime {
    open spec fn obeys_eq_spec() -> bool {
        true
    }

    open spec fn eq_spec(&self, other: &LocalDateTime) -> bool {
        self.is_same_instant(*other)
    }
}

impl Eq for LocalDateTime {

}

fn floor_remainder(value: i64, divisor: i64) -> (rest: i64)
    requires
        divisor == 60 || divisor == 86400,
        FIRST_SECOND - SECONDS_PER_DAY <= value <= LAST_SECOND + SECONDS_PER_DAY,
    ensures
        rest == value as int % divisor as int,
{
    let shifted: i64 = value + 10_000_000_000_800;
    assert((value + 10_000_000_000_800) as int % 60 == value as int % 60);
    if divisor == 60 {
        shifted % 60
    } else {
        let lifted: i64 = value + 9_999_936_000_000;
        assert((value + 9_999_936_000_000) as int % 86400 == value as int % 86400) by {
            assert(9_999_936_000_000 == 86400 * 115740000);
        }
        lifted % 86400
    }
}

/// What the local time zone says of a time on the wall clock: the offset or, where the clock
/// was set back, the two offsets at which the wall clock showed it, or that it never did.
#[derive(Clone, Copy, Debug, PartialEq, Eq)]
pub enum LocalOffsets {
    Single(i32),
    Ambiguous(i32, i32),
    Missing,
}

/// Whether every offset of `offsets` leads from a second of the wall clock to one in UTC.
pub open spec fn offsets_fit(offsets: LocalOffsets, wall_second: int) -> bool {
    match offsets {
        LocalOffsets::Single(offset) => on_calendar(wall_second - offset, offset as int),
        LocalOffsets::Ambiguous(first, second) => on_calendar(wall_second - first, first as int)
            && on_calendar(wall_second - second, second as int),
        LocalOffsets::Missing => true,
    }
}

/// What `TimeZone::from_local_datetime` of chrono gives for a second of the wall clock, by the
/// rules of a time zone.
pub uninterp spec fn zone_offsets(zone: Seq<char>, wall_second: int) -> LocalOffsets;

/// Whether the wall clock of a time zone has the offset of a point in time when it shows what it
/// shows then.
pub open spec fn shown_in(zone: Seq<char>, t: LocalDateTime) -> bool {
    match zone_offsets(zone, t.wall_second()) {
        LocalOffsets::Single(offset) => t.offset() == offset,
        LocalOffsets::Ambiguous(first, second) => t.offset() == first || t.offset() == second,
        LocalOffsets::Missing => false,
    }
}

/// Asks `TimeZone::from_local_datetime` of chrono's `Local` at which offsets the wall clock
/// shows a second.
///
/// Which time zone the machine has at the time of the call is left open. What is claimed is that
/// the answer comes from the second and the rules of some time zone alone, that each offset is
/// less than a day, and that it leads to a second that the calendar has.
#[verifier::external_body]
pub(crate) fn local_offsets(wall_second: i64) -> (offsets: LocalOffsets)
    requires
        FIRST_SECOND <= wall_second <= LAST_SECOND,
    ensures
        offsets_fit(offsets, wall_second as int),
        exists|zone: Seq<char>| offsets == #[trigger] zone_offsets(zone, wall_second as int),
{
    let wall = DateTime::from_timestamp(wall_second, 0).unwrap().naive_utc();
    match Local.from_local_datetime(&wall) {
        LocalResult::Single(t) => LocalOffsets::Single(t.offset().local_minus_utc()),
        LocalResult::Ambiguous(t, u) => LocalOffsets::Ambiguous(
            t.offset().local_minus_utc(),
            u.offset().local_minus_utc(),
        ),
        LocalResult::None => LocalOffsets::Missing,
    }
}

/// By how many seconds the wall clock is ahead of UTC at a second of UTC, as chrono's
/// `DateTime::with_timezone` has it by the rules of a time zone.
pub uninterp spec fn zone_offset_at(zone: Seq<char>, unix_second: int) -> int;

/// Asks chrono's `DateTime::with_timezone` for `Local` by how many seconds the wall clock is
/// ahead of UTC at a second of UTC.
///
/// Which time zone the machine has at the time of the call is left open. What is claimed is that
/// the answer comes from the second and the rules of some time zone alone, and is less than a
/// day.
#[verifier::external_body]
fn local_offset_at(unix_second: i64) -> (offset: i32)
    requires
        FIRST_SECOND <= unix_second <= LAST_SECOND,
    ensures
        -SECONDS_PER_DAY < offset < SECONDS_PER_DAY,
        exists|zone: Seq<char>| offset == #[trigger] zone_offset_at(zone, unix_second as int),
{
    DateTime::from_timestamp(unix_second, 0).unwrap().with_timezone(&Local).offset().local_minus_utc()
}

/// Whether `made` may be the point in time that a machine has for a second of UTC. Its offset is
/// the one of some time zone at that second.
pub open spec fn may_be_local_datetime(made: Option<LocalDateTime>, timestamp: i64) -> bool {
    match made {
        Some(t) => {
            &&& FIRST_SECOND <= timestamp <= LAST_SECOND
            &&& t.second() == timestamp
            &&& t.nanosecond() == 0
            &&& exists|zone: Seq<char>| t.offset() == #[trigger] zone_offset_at(
                zone,
                timestamp as int,
            )
        },
        None => !(FIRST_SECOND <= timestamp <= LAST_SECOND),
    }
}

/// The point in time at a second of UTC, with the offset that the local wall clock has then.
/// There is none for a second that the calendar does not have.
pub fn local_datetime_from_unix(timestamp: i64) -> (made: Option<LocalDateTime>)
    ensures
        may_be_local_datetime(made, timestamp),
{
    if timestamp < FIRST_SECOND || timestamp > LAST_SECOND {
        return None;
    }
    LocalDateTime::from_parts(timestamp, 0, local_offset_at(timestamp))
}

/// Year, month, day, hour, minute and second.
pub const DATE_TIME_PATTERN: &'static str = "%Y-%m-%d %H:%M:%S";

/// Hour and minute, then day, month and year.
pub const ALARM_LIST_PATTERN: &'static str = "%H:%M %d-%m-%Y";

/// Hour and minute, a comma, then day, month and year.
pub const EXPIRY_PATTERN: &'static str = "%H:%M, %d-%m-%Y";

/// The text that chrono's `DateTime::format` gives for a pattern, at a second and nanosecond of
/// UTC, on a wall clock that is `offset` seconds ahead.
pub uninterp spec fn calendar_text(
    second: int,
    nanosecond: int,
    offset: int,
    pattern: Seq<char>,
) -> Seq<char>;

/// Calls chrono's `DateTime::format` with one of the patterns above.
///
/// The contract names the text; it says of it only that it is made from the point in time, the
/// offset and the pattern alone.
#[verifier::external_body]
fn calendar_format(second: i64, nanosecond: u32, offset: i32, pattern: &str) -> (text: String)
    requires
        on_calendar(second as int, offset as int),
        nanos_fit(second as int, nanosecond as int),
        pattern@ == DATE_TIME_PATTERN@ || pattern@ == ALARM_LIST_PATTERN@ || pattern@
            == EXPIRY_PATTERN@,
    ensures
        text@ == calendar_text(second as int, nanosecond as int, offset as int, pattern@),
{
    let clock = FixedOffset::east_opt(offset).unwrap();
    let time = DateTime::from_timestamp(second, nanosecond).unwrap();
    time.with_timezone(&clock).format(pattern).to_string()
}

/// The text that chrono's `DateTime::to_rfc3339` gives at a second and nanosecond of UTC, on a
/// wall clock that is `offset` seconds ahead.
pub uninterp spec fn rfc3339_text(second: int, nanosecond: int, offset: int) -> Seq<char>;

/// Whether a text has the characters of a time in RFC 3339, and begins with a digit or a sign.
pub open spec fn looks_like_rfc3339(s: Seq<char>) -> bool {
    &&& s.len() > 0
    &&& (text::is_digit(s[0]) || s[0] == '+' || s[0] == '-')
    &&& forall|i: int|
        0 <= i < s.len() ==> text::is_digit(#[trigger] s[i]) || s[i] == '+' || s[i] == '-' || s[i]
            == ':' || s[i] == '.' || s[i] == 'T'
}

/// Calls chrono's `DateTime::to_rfc3339`.
///
/// The contract names the text, which is made from the point in time and the offset alone, and
/// says which characters it has: it begins with the year, and holds digits, signs, colons, a
/// dot and a `T`.
#[verifier::external_body]
fn rfc3339_format(second: i64, nanosecond: u32, offset: i32) -> (text: String)
    requires
        on_calendar(second as int, offset as int),
        nanos_fit(second as int, nanosecond as int),
    ensures
        text@ == rfc3339_text(second as int, nanosecond as int, offset as int),
        looks_like_rfc3339(text@),
{
    let clock = FixedOffset::east_opt(offset).unwrap();
    DateTime::from_timestamp(second, nanosecond).unwrap().with_timezone(&clock).to_rfc3339()
}

impl LocalDateTime {
    /// The text of this point in time on its wall clock, for a pattern.
    pub open spec fn text_for(self, pattern: Seq<char>) -> Seq<char> {
        calendar_text(self.second(), self.nanosecond(), self.offset(), pattern)
    }

    /// The text of this point in time as RFC 3339 has it.
    pub open spec fn rfc3339(self) -> Seq<char> {
        rfc3339_text(self.second(), self.nanosecond(), self.offset())
    }

    /// The hours, minutes and seconds that the wall clock shows. A leap second shows as 60.
    pub open spec fn clock_text(self) -> Seq<char> {
        let of_day = self.wall_second() % SECONDS_PER_DAY as int;
        let second = if self.nanosecond() >= 1_000_000_000 {
            of_day % 60 + 1
        } else {
            of_day % 60
        };
        text::two_digits((of_day / 3600) as nat).push(':') + text::two_digits(
            (of_day / 60 % 60) as nat,
        ).push(':') + text::two_digits(second as nat)
    }

    /// This point in time as RFC 3339 has it.
    pub fn to_rfc3339(self) -> (text: String)
        ensures
            text@ == self.rfc3339(),
            looks_like_rfc3339(text@),
    {
        proof {
            use_type_invariant(&self);
        }
        rfc3339_format(self.unix_seconds, self.nanos, self.utc_offset_seconds)
    }
}

/// The date and the time, the date first.
pub fn format_datetime(value: LocalDateTime) -> (text: String)
    ensures
        text@ == value.text_for(DATE_TIME_PATTERN@),
{
    proof {
        use_type_invariant(&value);
    }
    calendar_format(value.unix_seconds, value.nanos, value.utc_offset_seconds, DATE_TIME_PATTERN)
}

/// The time, then the date from day to year.
pub fn format_alarm_list_datetime(value: LocalDateTime) -> (text: String)
    ensures
        text@ == value.text_for(ALARM_LIST_PATTERN@),
{
    proof {
        use_type_invariant(&value);
    }
    calendar_format(value.unix_seconds, value.nanos, value.utc_offset_seconds, ALARM_LIST_PATTERN)
}

/// The time, a comma, then the date from day to year.
pub fn format_expiry_datetime(value: LocalDateTime) -> (text: String)
    ensures
        text@ == value.text_for(EXPIRY_PATTERN@),
{
    proof {
        use_type_invariant(&value);
    }
    calendar_format(value.unix_seconds, value.nanos, value.utc_offset_seconds, EXPIRY_PATTERN)
}

/// The hours, minutes and seconds that the wall clock shows.
pub fn format_time(value: LocalDateTime) -> (text: String)
    ensures
        text@ == value.clock_text(),
{
    proof {
        use_type_invariant(&value);
    }
    let wall: i64 = value.unix_seconds + value.utc_offset_seconds as i64;
    let of_day: i64 = floor_remainder(wall, 86400);
    let second: i64 = if value.nanos >= 1_000_000_000 {
        of_day % 60 + 1
    } else {
        of_day % 60
    };
    let mut text = String::new();
    text::push_two_digits(&mut text, (of_day / 3600) as u8);
    text.push(':');
    text::push_two_digits(&mut text, (of_day / 60 % 60) as u8);
    text.push(':');
    text::push_two_digits(&mut text, second as u8);
    assert(text@ =~= value.clock_text());
    text
}

/// Of two points in time, one is before the other or they are the same, and only one of these.
/// What the wall clock shows does not matter.
pub proof fn time_goes_one_way(a: LocalDateTime, b: LocalDateTime, c: LocalDateTime)
    ensures
        a.second() < b.second() ==> a.is_before(b),
        a.second() == b.second() ==> (a.is_before(b) <==> a.nanosecond() < b.nanosecond()),
        !a.is_before(a),
        a.is_before(b) ==> !b.is_before(a),
        a.is_before(b) && b.is_before(c) ==> a.is_before(c),
        a.is_same_instant(b) <==> !a.is_before(b) && !b.is_before(a),
        a.second() == c.second() && a.nanosecond() == c.nanosecond() ==> (a.is_before(b)
            <==> c.is_before(b)),
{
}

/// The clock text has two digits each for the hour, the minute and the second, with colons
/// between them, and read together they give the second of the day that the wall clock shows.
pub proof fn clock_text_shows_the_time_of_day(t: LocalDateTime)
    requires
        0 <= t.nanosecond() < 1_000_000_000,
    ensures
        t.clock_text().len() == 8,
        t.clock_text()[2] == ':',
        t.clock_text()[5] == ':',
        text::digits_value(t.clock_text().subrange(0, 2)) * 3600 + text::digits_value(
            t.clock_text().subrange(3, 5),
        ) * 60 + text::digits_value(t.clock_text().subrange(6, 8)) == t.wall_second() % 86400,
        text::digits_value(t.clock_text().subrange(0, 2)) < 24,
        text::digits_value(t.clock_text().subrange(3, 5)) < 60,
        text::digits_value(t.clock_text().subrange(6, 8)) < 60,
{
    let of_day = t.wall_second() % 86400;
    let hour = text::two_digits((of_day / 3600) as nat);
    let minute = text::two_digits((of_day / 60 % 60) as nat);
    let second = text::two_digits((of_day % 60) as nat);
    text::two_digits_read_back((of_day / 3600) as nat);
    text::two_digits_read_back((of_day / 60 % 60) as nat);
    text::two_digits_read_back((of_day % 60) as nat);
    assert(t.clock_text().subrange(0, 2) =~= hour);
    assert(t.clock_text().subrange(3, 5) =~= minute);
    assert(t.clock_text().subrange(6, 8) =~= second);
}

} // verus!
