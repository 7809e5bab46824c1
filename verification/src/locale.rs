//! The wall clock a movie reads.
//!
//! A sandbox has none, so the date is the machine's own clock counted from a
//! fixed moment: the same on every machine, and moving.
use vstd::prelude::*;

verus! {

/// The first second of the twenty-first century, which is where a run starts.
pub const EPOCH_SECONDS: i64 = 978_307_200;

/// The first and last milliseconds of the calendar, counted from 1970: the
/// years from 262143 before our era to 262142 of it.
pub const CALENDAR_FIRST: i64 = -8_334_601_228_800_000;

pub const CALENDAR_LAST: i64 = 8_210_266_876_799_999;

/// A moment, in milliseconds from 1970, that the calendar has.
pub open spec fn in_calendar(millis: int) -> bool {
    CALENDAR_FIRST <= millis <= CALENDAR_LAST
}

/// `chrono::DateTime::from_timestamp`, with a `TimeDelta` of milliseconds
/// added by `checked_add_signed`, read back by `timestamp_millis`. A moment
/// outside of `chrono`'s calendar is none. `TimeDelta::milliseconds` panics on
/// the least number there is.
#[verifier::external_body]
fn moment(seconds: i64, millis: i64) -> (r: Option<i64>)
    requires
        millis > i64::MIN,
    ensures
        r == (if in_calendar(seconds * 1000) && in_calendar(seconds * 1000 + millis) {
            Some((seconds * 1000 + millis) as i64)
        } else {
            None
        }),
{
    chrono::DateTime::from_timestamp(seconds, 0)?
        .checked_add_signed(chrono::TimeDelta::milliseconds(millis))
        .map(|date| date.timestamp_millis())
}

/// `chrono::FixedOffset::east_opt`: the offset, in seconds, of less than a day.
#[verifier::external_body]
fn east_of_utc(seconds: i32) -> (r: Option<i32>)
    ensures
        r == (if -86_400 < seconds < 86_400 {
            Some(seconds)
        } else {
            None
        }),
{
    chrono::FixedOffset::east_opt(seconds).map(|offset| offset.local_minus_utc())
}

/// The date when a run's clock stands at `millis`, in milliseconds from 1970.
pub open spec fn date_of(millis: int) -> int {
    EPOCH_SECONDS * 1000 + millis
}

/// What a movie asks the date of.
pub struct WaterboxLocale {
    /// Milliseconds since the epoch of the run.
    pub millis: i64,
}

impl WaterboxLocale {
    /// The date, in milliseconds from 1970.
    pub fn get_current_date_time(&self) -> (r: i64)
        requires
            in_calendar(EPOCH_SECONDS * 1000 + self.millis),
        ensures
            r == date_of(self.millis as int),
    {
        match moment(EPOCH_SECONDS, self.millis) {
            Some(millis) => millis,
            None => 0,
        }
    }

    /// The time zone, in seconds east of UTC: none.
    pub fn get_timezone(&self) -> (r: i32)
        ensures
            r == 0,
    {
        match east_of_utc(0) {
            Some(seconds) => seconds,
            None => 0,
        }
    }
}

/// The date is the clock, counted from the first second of 2001: it is as far on
/// as the clock is, neither faster nor slower, whatever the clock says.
pub proof fn the_date_is_the_clock(millis: int, later: int)
    ensures
        date_of(0) == 978_307_200_000,
        date_of(later) - date_of(millis) == later - millis,
{
}

/// Every date is in the calendar from the first millisecond to the last of the
/// years it has.
pub proof fn the_calendar_has_its_ends(millis: int)
    ensures
        in_calendar(millis) <==> -8_334_601_228_800_000 <= millis <= 8_210_266_876_799_999,
{
}

} // verus!
