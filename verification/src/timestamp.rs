//! Points in time on the Gregorian calendar, kept in UTC together with the
//! offset they were written with.

use vstd::prelude::*;
use crate::decimal::{four_digits, push_four_digits, push_two_digits, two_digits};

verus! {

/// The largest offset from UTC, in minutes, either way: 23 hours 59 minutes.
pub const MAX_OFFSET_MINUTES: i16 = 1439;

/// The largest year that is written with four digits.
pub const MAX_YEAR: u16 = 9999;

/// A day on the calendar.
pub struct CalendarDate {
    pub year: int,
    pub month: int,
    pub day: int,
}

/// A point in time: a UTC date and time of day, and the offset from UTC, in
/// minutes, of the clock it was read from.
pub struct Moment {
    pub date: CalendarDate,
    pub hour: int,
    pub minute: int,
    pub second: int,
    pub offset_minutes: int,
}

/// Whether `year` has a 29th of February.
pub open spec fn is_leap_year(year: int) -> bool {
    year % 4 == 0 && (year % 100 != 0 || year % 400 == 0)
}

/// The number of days of `month` in `year`.
pub open spec fn days_in_month(year: int, month: int) -> int {
    if month == 2 {
        if is_leap_year(year) {
            29
        } else {
            28
        }
    } else if month == 4 || month == 6 || month == 9 || month == 11 {
        30
    } else {
        31
    }
}

/// Whether `date` is a day that the calendar has.
pub open spec fn is_calendar_date(date: CalendarDate) -> bool {
    &&& 1 <= date.month <= 12
    &&& 1 <= date.day <= days_in_month(date.year, date.month)
}

/// Whether `hour:minute:second` is a time of day. A second of 60 is a leap
/// second.
pub open spec fn is_time_of_day(hour: int, minute: int, second: int) -> bool {
    &&& 0 <= hour <= 23
    &&& 0 <= minute <= 59
    &&& 0 <= second <= 60
}

/// Whether `minutes` is an offset from UTC that a clock can have.
pub open spec fn is_offset(minutes: int) -> bool {
    -MAX_OFFSET_MINUTES <= minutes <= MAX_OFFSET_MINUTES
}

/// The day before `date`.
pub open spec fn day_before(date: CalendarDate) -> CalendarDate {
    if date.day > 1 {
        CalendarDate { day: date.day - 1, ..date }
    } else if date.month > 1 {
        CalendarDate {
            year: date.year,
            month: date.month - 1,
            day: days_in_month(date.year, date.month - 1),
        }
    } else {
        CalendarDate { year: date.year - 1, month: 12, day: 31 }
    }
}

/// The day after `date`.
pub open spec fn day_after(date: CalendarDate) -> CalendarDate {
    if date.day < days_in_month(date.year, date.month) {
        CalendarDate { day: date.day + 1, ..date }
    } else if date.month < 12 {
        CalendarDate { year: date.year, month: date.month + 1, day: 1 }
    } else {
        CalendarDate { year: date.year + 1, month: 1, day: 1 }
    }
}

/// The moment at which a clock that is `offset_minutes` ahead of UTC shows
/// the date `local` and the time `hour:minute:second`.
///
/// The time in UTC is the local time less the offset. An offset is shorter
/// than a day, so the date in UTC is the local date, the day before it or the
/// day after it.
pub open spec fn moment_at(
    local: CalendarDate,
    hour: int,
    minute: int,
    second: int,
    offset_minutes: int,
) -> Moment {
    let minutes = hour * 60 + minute - offset_minutes;
    if minutes < 0 {
        Moment {
            date: day_before(local),
            hour: (minutes + 1440) / 60,
            minute: (minutes + 1440) % 60,
            second,
            offset_minutes,
        }
    } else if minutes >= 1440 {
        Moment {
            date: day_after(local),
            hour: (minutes - 1440) / 60,
            minute: (minutes - 1440) % 60,
            second,
            offset_minutes,
        }
    } else {
        Moment { date: local, hour: minutes / 60, minute: minutes % 60, second, offset_minutes }
    }
}

/// Whether `moment` is one that a [`Timestamp`] can hold: a day that the
/// calendar has, in a year of four digits, a time of day, and an offset that
/// a clock can have.
pub open spec fn is_moment(moment: Moment) -> bool {
    &&& 0 <= moment.date.year <= MAX_YEAR
    &&& is_calendar_date(moment.date)
    &&& is_time_of_day(moment.hour, moment.minute, moment.second)
    &&& is_offset(moment.offset_minutes)
}

/// The moment that the given local date, local time and offset denote, where
/// they denote one that a [`Timestamp`] can hold.
pub open spec fn moment_of_local(
    local: CalendarDate,
    hour: int,
    minute: int,
    second: int,
    offset_minutes: int,
) -> Option<Moment> {
    if is_calendar_date(local) && is_time_of_day(hour, minute, second) && is_offset(
        offset_minutes,
    ) && is_moment(moment_at(local, hour, minute, second, offset_minutes)) {
        Some(moment_at(local, hour, minute, second, offset_minutes))
    } else {
        None
    }
}

/// The compact UTC notation of `moment`: `YYYYMMDD-HHMMSSZ`, every field
/// zero-padded.
pub open spec fn stamp_text(moment: Moment) -> Seq<char> {
    four_digits(moment.date.year as nat) + two_digits(moment.date.month as nat) + two_digits(
        moment.date.day as nat,
    ) + seq!['-'] + two_digits(moment.hour as nat) + two_digits(moment.minute as nat)
        + two_digits(moment.second as nat) + seq!['Z']
}

/// Going back a day and forward again, or forward and back, ends on the same
/// day; and both neighbours of a day of the calendar are days of the calendar.
pub proof fn lemma_neighbouring_days(date: CalendarDate)
    requires
        is_calendar_date(date),
    ensures
        is_calendar_date(day_before(date)),
        is_calendar_date(day_after(date)),
        day_after(day_before(date)) == date,
        day_before(day_after(date)) == date,
{
}

/// The UTC side of a moment is a proper date and time whenever the local side
/// is, and it is the local time itself where the offset is zero.
pub proof fn lemma_moment_at_is_proper(
    local: CalendarDate,
    hour: int,
    minute: int,
    second: int,
    offset_minutes: int,
)
    requires
        is_calendar_date(local),
        is_time_of_day(hour, minute, second),
        is_offset(offset_minutes),
    ensures
        ({
            let moment = moment_at(local, hour, minute, second, offset_minutes);
            &&& is_calendar_date(moment.date)
            &&& is_time_of_day(moment.hour, moment.minute, moment.second)
            &&& local.year - 1 <= moment.date.year <= local.year + 1
            &&& offset_minutes == 0 ==> moment == (Moment {
                date: local,
                hour,
                minute,
                second,
                offset_minutes,
            })
        }),
{
    lemma_neighbouring_days(local);
}

/// A point in time, as a feed gives it for an episode.
#[derive(Clone, Copy, Debug, PartialEq, Eq)]
pub struct Timestamp {
    year: u16,
    month: u8,
    day: u8,
    hour: u8,
    minute: u8,
    second: u8,
    offset_minutes: i16,
}

impl View for Timestamp {
    type V = Moment;

    closed spec fn view(&self) -> Moment {
        Moment {
            date: CalendarDate {
                year: self.year as int,
                month: self.month as int,
                day: self.day as int,
            },
            hour: self.hour as int,
            minute: self.minute as int,
            second: self.second as int,
            offset_minutes: self.offset_minutes as int,
        }
    }
}

/// The moment of `timestamp`, where there is one.
pub open spec fn moment_in(timestamp: Option<Timestamp>) -> Option<Moment> {
    match timestamp {
        Some(t) => Some(t@),
        None => None,
    }
}

/// The number of days of `month` in `year`.
pub fn month_length(year: u16, month: u8) -> (days: u8)
    ensures
        days == days_in_month(year as int, month as int),
        28 <= days <= 31,
{
    if month == 2 {
        if year % 4 == 0 && (year % 100 != 0 || year % 400 == 0) {
            29
        } else {
            28
        }
    } else if month == 4 || month == 6 || month == 9 || month == 11 {
        30
    } else {
        31
    }
}

impl Timestamp {
    /// What holds of every timestamp: it is a moment that can be written
    /// with a four-digit year.
    #[verifier::type_invariant]
    pub closed spec fn is_proper(self) -> bool {
        is_moment(self@)
    }

    /// What [`Self::is_proper`] says of the timestamp's moment.
    pub proof fn lemma_is_moment(self)
        requires
            self.is_proper(),
        ensures
            is_moment(self@),
    {
    }

    /// The timestamp of the moment at which a clock that is `offset_minutes`
    /// ahead of UTC shows the given date and time.
    ///
    /// The result is `None` where the date is none of the calendar, the time
    /// none of the day, the offset 24 hours or more, or the year in UTC not
    /// within 0 to 9999.
    pub fn new(
        year: u16,
        month: u8,
        day: u8,
        hour: u8,
        minute: u8,
        second: u8,
        offset_minutes: i16,
    ) -> (timestamp: Option<Timestamp>)
        ensures
            moment_in(timestamp) == moment_of_local(
                CalendarDate { year: year as int, month: month as int, day: day as int },
                hour as int,
                minute as int,
                second as int,
                offset_minutes as int,
            ),
    {
        if month < 1 || month > 12 || day < 1 || hour > 23 || minute > 59 || second > 60
            || offset_minutes < -MAX_OFFSET_MINUTES || offset_minutes > MAX_OFFSET_MINUTES {
            return None;
        }
        if day > month_length(year, month) {
            return None;
        }
        let ghost local = CalendarDate { year: year as int, month: month as int, day: day as int };
        proof {
            lemma_moment_at_is_proper(
                local,
                hour as int,
                minute as int,
                second as int,
                offset_minutes as int,
            );
        }
        let minutes: i32 = hour as i32 * 60 + minute as i32 - offset_minutes as i32;
        if minutes < 0 {
            let shifted: i32 = minutes + 1440;
            if day > 1 {
                Self::checked(year, month, day - 1, shifted, second, offset_minutes)
            } else if month > 1 {
                let before: u8 = month_length(year, month - 1);
                Self::checked(year, month - 1, before, shifted, second, offset_minutes)
            } else if year > 0 {
                Self::checked(year - 1, 12, 31, shifted, second, offset_minutes)
            } else {
                None
            }
        } else if minutes >= 1440 {
            let shifted: i32 = minutes - 1440;
            if day < month_length(year, month) {
                Self::checked(year, month, day + 1, shifted, second, offset_minutes)
            } else if month < 12 {
                Self::checked(year, month + 1, 1, shifted, second, offset_minutes)
            } else if year < MAX_YEAR {
                Self::checked(year + 1, 1, 1, shifted, second, offset_minutes)
            } else {
                None
            }
        } else {
            Self::checked(year, month, day, minutes, second, offset_minutes)
        }
    }

    /// The timestamp of the UTC date and the minute of the day given, where
    /// its year has four digits.
    fn checked(
        year: u16,
        month: u8,
        day: u8,
        minute_of_day: i32,
        second: u8,
        offset_minutes: i16,
    ) -> (timestamp: Option<Timestamp>)
        requires
            is_calendar_date(
                CalendarDate { year: year as int, month: month as int, day: day as int },
            ),
            0 <= minute_of_day < 1440,
            second <= 60,
            is_offset(offset_minutes as int),
        ensures
            timestamp is Some <==> year <= MAX_YEAR,
            timestamp matches Some(t) ==> t@ == (Moment {
                date: CalendarDate { year: year as int, month: month as int, day: day as int },
                hour: minute_of_day as int / 60,
                minute: minute_of_day as int % 60,
                second: second as int,
                offset_minutes: offset_minutes as int,
            }),
    {
        if year > MAX_YEAR {
            None
        } else {
            Some(
                Timestamp {
                    year,
                    month,
                    day,
                    hour: (minute_of_day / 60) as u8,
                    minute: (minute_of_day % 60) as u8,
                    second,
                    offset_minutes,
                },
            )
        }
    }

    /// The year, in UTC.
    pub fn year(&self) -> (r: u16)
        ensures
            r == self@.date.year,
    {
        self.year
    }

    /// The month, in UTC: 1 to 12.
    pub fn month(&self) -> (r: u8)
        ensures
            r == self@.date.month,
    {
        self.month
    }

    /// The day of the month, in UTC.
    pub fn day(&self) -> (r: u8)
        ensures
            r == self@.date.day,
    {
        self.day
    }

    /// The hour, in UTC.
    pub fn hour(&self) -> (r: u8)
        ensures
            r == self@.hour,
    {
        self.hour
    }

    /// The minute, in UTC.
    pub fn minute(&self) -> (r: u8)
        ensures
            r == self@.minute,
    {
        self.minute
    }

    /// The second.
    pub fn second(&self) -> (r: u8)
        ensures
            r == self@.second,
    {
        self.second
    }

    /// The offset from UTC, in minutes, of the clock the time was read from.
    pub fn offset_minutes(&self) -> (r: i16)
        ensures
            r == self@.offset_minutes,
    {
        self.offset_minutes
    }

    /// Appends the compact UTC notation of the timestamp, `YYYYMMDD-HHMMSSZ`,
    /// to `out`.
    pub fn push_stamp(&self, out: &mut String)
        ensures
            final(out)@ == old(out)@ + stamp_text(self@),
    {
        push_four_digits(out, self.year);
        push_two_digits(out, self.month as u16);
        push_two_digits(out, self.day as u16);
        let ghost date = out@;
        out.push('-');
        assert(out@ =~= date + seq!['-']);
        push_two_digits(out, self.hour as u16);
        push_two_digits(out, self.minute as u16);
        push_two_digits(out, self.second as u16);
        let ghost time = out@;
        out.push('Z');
        assert(out@ =~= time + seq!['Z']);
        assert(out@ =~= old(out)@ + stamp_text(self@));
    }

    /// The compact UTC notation of the timestamp: `YYYYMMDD-HHMMSSZ`.
    pub fn stamp(&self) -> (text: String)
        ensures
            text@ == stamp_text(self@),
            text@.len() == 16,
    {
        let mut text = String::new();
        self.push_stamp(&mut text);
        assert(text@ =~= stamp_text(self@));
        text
    }
}

} // verus!
