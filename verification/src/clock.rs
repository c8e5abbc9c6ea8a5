//! Points in time, and the text that shows when an entry was last modified:
//! month, day and year for another year than the current one, month, day,
//! hour and minute for the current year. The calendar is that of the
//! `chrono` crate, in the machine's local time zone.

use vstd::prelude::*;

verus! {

/// The pattern for a time in another year than the current one.
pub const MONTH_DAY_YEAR: &'static str = "%b %e  %Y";

/// The pattern for a time in the current year.
pub const MONTH_DAY_TIME: &'static str = "%b %e %H:%M";

/// The first second that the calendar holds: the start of the year -262143.
pub const FIRST_SECOND: i64 = -8_334_601_228_800;

/// The last second that the calendar holds: the end of the year 262142.
pub const LAST_SECOND: i64 = 8_210_266_876_799;

/// Whether the calendar can represent the moment: the second lies in its
/// range, and the nanoseconds stay below a full second, or below two where
/// the second is the last of its minute and may hold a leap second.
pub open spec fn in_calendar(secs: i64, nanos: u32) -> bool {
    &&& FIRST_SECOND <= secs <= LAST_SECOND
    &&& nanos < 1_000_000_000 || (nanos < 2_000_000_000 && secs as int % 60 == 59)
}

/// A point in time: whole seconds since the start of 1970, which may be
/// negative, and the nanoseconds that follow them.
#[derive(Debug, Clone, Copy, PartialEq, Eq, Structural)]
pub struct Timestamp {
    pub secs: i64,
    pub nanos: u32,
}

/// The start of 1970.
pub open spec fn epoch() -> Timestamp {
    Timestamp { secs: 0, nanos: 0 }
}

impl Timestamp {
    /// The start of 1970, which stands in for a time that could not be read.
    pub fn epoch() -> (start: Timestamp)
        ensures
            start == epoch(),
    {
        Timestamp { secs: 0, nanos: 0 }
    }

    /// Whether the calendar can represent `self`.
    pub fn representable(&self) -> (held: bool)
        ensures
            held == in_calendar(self.secs, self.nanos),
    {
        if self.secs < FIRST_SECOND || self.secs > LAST_SECOND {
            false
        } else if self.nanos < 1_000_000_000 {
            true
        } else {
            let since_first: i64 = self.secs - FIRST_SECOND;
            self.nanos < 2_000_000_000 && since_first % 60 == 59
        }
    }

    /// Whether `self` lies before `other`.
    pub open spec fn is_before(self, other: Timestamp) -> bool {
        self.secs < other.secs || (self.secs == other.secs && self.nanos < other.nanos)
    }

    /// Whether `self` lies before `other`.
    pub fn before(&self, other: &Timestamp) -> (earlier: bool)
        ensures
            earlier == self.is_before(*other),
    {
        self.secs < other.secs || (self.secs == other.secs && self.nanos < other.nanos)
    }
}

/// The pattern for a time whose year is `file_year`, seen from `current_year`.
pub open spec fn pattern_for(file_year: i32, current_year: i32) -> &'static str {
    if current_year != file_year {
        MONTH_DAY_YEAR
    } else {
        MONTH_DAY_TIME
    }
}

/// Chooses the pattern: with the year for another year than the current one,
/// with the time of day for the current year.
pub fn time_pattern(file_year: i32, current_year: i32) -> (pattern: &'static str)
    ensures
        pattern == pattern_for(file_year, current_year),
{
    if current_year != file_year {
        MONTH_DAY_YEAR
    } else {
        MONTH_DAY_TIME
    }
}

/// The calendar year of a moment in the zone that lies `offset` seconds east
/// of Greenwich, as `chrono` tells it.
pub uninterp spec fn year_in_zone(secs: i64, nanos: u32, offset: i32) -> i32;

/// The text of a moment in the zone that lies `offset` seconds east of
/// Greenwich, as `chrono` writes it after `pattern`.
pub uninterp spec fn text_in_zone(secs: i64, nanos: u32, offset: i32, pattern: Seq<char>) -> Seq<
    char,
>;

/// Whether `offset` can be the distance of a zone from Greenwich: less than a
/// day to either side.
pub open spec fn is_zone_offset(offset: i32) -> bool {
    -86_400 < offset < 86_400
}

/// The text that shows a moment in a zone, seen from `current_year`: written
/// after the pattern that goes with the moment's year in that zone.
pub open spec fn shown_in_zone(modified: Timestamp, offset: i32, current_year: i32) -> Seq<char> {
    text_in_zone(
        modified.secs,
        modified.nanos,
        offset,
        pattern_for(year_in_zone(modified.secs, modified.nanos, offset), current_year)@,
    )
}

/// `chrono::DateTime::from_timestamp`, then `DateTime::with_timezone` to
/// `chrono::Local`, then `DateTime::offset` and
/// `FixedOffset::local_minus_utc`: how many seconds the machine's time zone
/// lies east of Greenwich at the moment. There is an answer exactly where
/// `from_timestamp` accepts the moment, which `in_calendar` says, and it is
/// less than a day to either side, as every `FixedOffset` is. Which offset it
/// is depends on the machine.
#[verifier::external_body]
pub(crate) fn local_offset(secs: i64, nanos: u32) -> (offset: Option<i32>)
    ensures
        offset is Some <==> in_calendar(secs, nanos),
        offset matches Some(east) ==> is_zone_offset(east),
{
    let moment = chrono::DateTime::from_timestamp(secs, nanos)?;
    Some(moment.with_timezone(&chrono::Local).offset().local_minus_utc())
}

/// `chrono::Local::now`, then `Datelike::year`: the current calendar year in
/// the machine's time zone.
#[verifier::external_body]
pub(crate) fn current_local_year() -> (year: i32) {
    chrono::Datelike::year(&chrono::Local::now())
}

/// `chrono::FixedOffset::east_opt` and `DateTime::from_timestamp`, then
/// `DateTime::with_timezone` and `Datelike::year`: the calendar year of the
/// moment in the given zone. Both constructors accept what `requires` lets
/// in, and the year depends on the three numbers alone.
#[verifier::external_body]
pub(crate) fn year_at(secs: i64, nanos: u32, offset: i32) -> (year: Option<i32>)
    requires
        in_calendar(secs, nanos),
        is_zone_offset(offset),
    ensures
        year == Some(year_in_zone(secs, nanos, offset)),
{
    let zone = chrono::FixedOffset::east_opt(offset)?;
    let moment = chrono::DateTime::from_timestamp(secs, nanos)?;
    Some(chrono::Datelike::year(&moment.with_timezone(&zone)))
}

/// `chrono::FixedOffset::east_opt` and `DateTime::from_timestamp`, then
/// `DateTime::with_timezone` and `DateTime::format`, written out with
/// `DelayedFormat::write_to`: the moment in the given zone, written after
/// one of the library's two patterns. Both constructors accept what
/// `requires` lets in; both patterns ask for month, day, year, hour and
/// minute only, which a date with a time always has; and the text depends on
/// the three numbers and the pattern alone.
#[verifier::external_body]
pub(crate) fn text_at(secs: i64, nanos: u32, offset: i32, pattern: &str) -> (text: Option<String>)
    requires
        in_calendar(secs, nanos),
        is_zone_offset(offset),
        pattern@ == MONTH_DAY_YEAR@ || pattern@ == MONTH_DAY_TIME@,
    ensures
        text is Some,
        text->0@ == text_in_zone(secs, nanos, offset, pattern@),
{
    let zone = chrono::FixedOffset::east_opt(offset)?;
    let moment = chrono::DateTime::from_timestamp(secs, nanos)?.with_timezone(&zone);
    let mut text = String::new();
    match moment.format(pattern).write_to(&mut text) {
        Ok(()) => Some(text),
        Err(_) => None,
    }
}

/// The text that shows `modified` in the zone that lies `offset` seconds east
/// of Greenwich, seen from `current_year`: with the year where the moment
/// lies in another year there, and with the time of day where it lies in the
/// current one. There is a text exactly where the calendar can represent the
/// moment and the offset is less than a day.
pub fn shown_time(modified: Timestamp, offset: i32, current_year: i32) -> (text: Option<String>)
    ensures
        text is Some <==> in_calendar(modified.secs, modified.nanos) && is_zone_offset(offset),
        text matches Some(shown) ==> shown@ == shown_in_zone(modified, offset, current_year),
{
    if !modified.representable() || offset <= -86_400 || offset >= 86_400 {
        return None;
    }
    match year_at(modified.secs, modified.nanos, offset) {
        Some(file_year) => {
            let pattern = time_pattern(file_year, current_year);
            text_at(modified.secs, modified.nanos, offset, pattern)
        },
        None => None,
    }
}

/// Whether `shown` is the text of `modified` in some zone, seen from some
/// year.
pub open spec fn is_shown_time(shown: Seq<char>, modified: Timestamp) -> bool {
    exists|offset: i32, current_year: i32|
        is_zone_offset(offset) && shown == #[trigger] shown_in_zone(modified, offset, current_year)
}

/// The text that shows `modified` in a listing: the one that `shown_time`
/// gives for the machine's time zone and the current year there. There is a
/// text exactly where the calendar can represent the moment.
pub fn modified_text(modified: Timestamp) -> (text: Option<String>)
    ensures
        text is Some <==> in_calendar(modified.secs, modified.nanos),
        text matches Some(shown) ==> is_shown_time(shown@, modified),
{
    match local_offset(modified.secs, modified.nanos) {
        Some(offset) => {
            let current_year = current_local_year();
            let text = shown_time(modified, offset, current_year);
            proof {
                if text is Some {
                    assert(text->0@ == shown_in_zone(modified, offset, current_year));
                }
            }
            text
        },
        None => None,
    }
}

} // verus!
