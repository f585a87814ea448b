//! The time-window converter: given a setting (a unit and an offset or
//! interval value) and an event time, computes the half-open time window
//! the event falls into, in the local calendar.
//!
//! For the sub-day units the window is pure millisecond arithmetic over
//! the local civil decomposition of the event time. For weeks, months and
//! years the window is a pair of civil dates, computed by the documented
//! weekday-offset algorithm, and only their local midnights come from the
//! calendar library.

use vstd::prelude::*;
use chrono::{Datelike, TimeZone, Timelike};
use crate::domain::{ConverterParameter, ConverterReturned, Instance, InstanceNoID, NatureError,
    Thing, ThingType};
use crate::text::{
    chars_eq, dec_str_signed, json_escaped, push_dec_i16, push_dec_i64, push_json_escaped,
    push_str_chars, str_eq, string_from_chars, strip_ws, strip_ws_str, ws_char,
};
use crate::text::lemma_char_filter_all_true;

verus! {

/// A calendar date in the local civil calendar.
#[derive(Clone, Copy, Debug, PartialEq, Eq, Structural)]
pub struct CivilDate {
    pub year: i32,
    pub month: u32,
    pub day: u32,
}

/// One millisecond instant decomposed in the local civil calendar.
#[derive(Clone, Copy, Debug)]
pub struct CivilTime {
    pub date: CivilDate,
    pub hour: u32,
    pub minute: u32,
    pub second: u32,
    pub millis: u32,
    /// Days since Monday, 0 to 6.
    pub weekday_from_monday: u32,
    /// Days since the first of January, 0-based.
    pub ordinal0: u32,
    /// Days since the first day of year 1 of the common era, 1-based.
    pub days_from_ce: i32,
}

/// Whether a year is a leap year of the proleptic Gregorian calendar.
pub open spec fn is_leap(y: int) -> bool {
    y % 4 == 0 && (y % 100 != 0 || y % 400 == 0)
}

/// The number of days in a month.
pub open spec fn days_in_month(y: int, m: int) -> int {
    if m == 2 {
        if is_leap(y) {
            29
        } else {
            28
        }
    } else if m == 4 || m == 6 || m == 9 || m == 11 {
        30
    } else {
        31
    }
}

/// A well-formed civil date within the years this engine works in.
pub open spec fn date_wf(d: CivilDate) -> bool {
    &&& 1 <= d.month <= 12
    &&& 1 <= d.day <= days_in_month(d.year as int, d.month as int)
    &&& 1 <= d.year <= 200_000
}

impl CivilTime {
    /// Well-formedness of a decomposition, as the calendar library
    /// guarantees it for the supported range of event times.
    pub open spec fn wf(self) -> bool {
        &&& date_wf(self.date)
        &&& 30 <= self.date.year <= 130_000
        &&& self.hour <= 23
        &&& self.minute <= 59
        &&& self.second <= 59
        &&& self.millis <= 999
        &&& self.weekday_from_monday <= 6
        &&& self.ordinal0 <= 365
        &&& 1 <= self.days_from_ce <= 50_000_000
    }
}

/// Relies on `chrono::Local::timestamp_millis_opt`, `naive_local`, and
/// the `Datelike`/`Timelike` accessors (`year`, `month`, `day`, `hour`,
/// `minute`, `second`, `timestamp_subsec_millis`, `weekday`, `ordinal0`,
/// `num_days_from_ce`): the local civil decomposition of an epoch-millis
/// instant. The result depends on the machine's time zone, so only the
/// documented field ranges are promised.
#[verifier::external_body]
fn local_civil_of(ts: i64) -> (r: CivilTime)
    requires
        -61_000_000_000_000 <= ts <= 4_000_000_000_000_000,
    ensures
        r.wf(),
{
    let t = chrono::Local.timestamp_millis_opt(ts).unwrap().naive_local();
    CivilTime {
        date: CivilDate { year: t.year(), month: t.month(), day: t.day() },
        hour: t.hour(),
        minute: t.minute(),
        second: t.second(),
        millis: t.timestamp_subsec_millis(),
        weekday_from_monday: t.weekday().num_days_from_monday(),
        ordinal0: t.ordinal0(),
        days_from_ce: t.num_days_from_ce(),
    }
}

/// Relies on `chrono::NaiveDate::from_ymd_opt`, `and_hms_opt`,
/// `Local::from_local_datetime` and `timestamp_millis`: the epoch millis
/// of the local midnight of the given civil date, or nothing when the
/// date does not exist or its local midnight is not well-defined. The
/// value depends on the machine's time zone; only the calendar library's
/// supported range is promised.
#[verifier::external_body]
fn local_midnight_millis(y: i32, m: u32, d: u32) -> (r: Option<i64>)
    ensures
        r matches Some(v) ==> -9_000_000_000_000_000 <= v <= 9_000_000_000_000_000,
{
    let nd = chrono::NaiveDate::from_ymd_opt(y, m, d)?;
    let dt = chrono::Local.from_local_datetime(&nd.and_hms_opt(0, 0, 0)?).earliest()?;
    Some(dt.timestamp_millis())
}

/// Leap year test.
pub fn leap_year(y: i32) -> (r: bool)
    requires
        y >= 1,
    ensures
        r == is_leap(y as int),
{
    y % 4 == 0 && (y % 100 != 0 || y % 400 == 0)
}

/// Month length.
pub fn month_days(y: i32, m: u32) -> (r: u32)
    requires
        y >= 1,
        1 <= m <= 12,
    ensures
        r as int == days_in_month(y as int, m as int),
{
    if m == 2 {
        if leap_year(y) {
            29
        } else {
            28
        }
    } else if m == 4 || m == 6 || m == 9 || m == 11 {
        30
    } else {
        31
    }
}

/// Days in the months before month `m` of year `y`.
pub open spec fn month_prefix(y: int, m: int) -> int
    decreases m,
{
    if m <= 1 {
        0
    } else {
        month_prefix(y, m - 1) + days_in_month(y, m - 1)
    }
}

/// The day of the year, 1-based.
pub open spec fn day_of_year(d: CivilDate) -> int {
    month_prefix(d.year as int, d.month as int) + d.day
}

/// The month prefix is bounded by 31 days per month.
proof fn lemma_month_prefix_bound(y: int, m: int)
    requires
        1 <= m <= 12,
    ensures
        0 <= month_prefix(y, m) <= 31 * (m - 1),
    decreases m,
{
    if m > 1 {
        lemma_month_prefix_bound(y, m - 1);
    }
}

/// A year holds at least 365 days before its last day of December.
proof fn lemma_december_prefix(y: int)
    ensures
        month_prefix(y, 12) >= 334,
{
    reveal_with_fuel(month_prefix, 13);
}

/// Stepping one day back either stays in the year and lowers the day of
/// the year by one, or enters the previous year at its last day.
proof fn lemma_back_one_day_of_year(d: CivilDate)
    requires
        date_wf(d),
        d.year >= 2,
    ensures
        ({
            let r = date_back_one(d);
            if d.month == 1 && d.day == 1 {
                r.year == d.year - 1 && day_of_year(r) >= 365
            } else {
                r.year == d.year && day_of_year(r) == day_of_year(d) - 1
            }
        }),
{
    let r = date_back_one(d);
    if d.month == 1 && d.day == 1 {
        lemma_december_prefix(d.year - 1);
        assert(day_of_year(r) == month_prefix(d.year - 1, 12) + 31);
    } else if d.day == 1 {
        assert(month_prefix(d.year as int, d.month as int) == month_prefix(
            d.year as int,
            d.month as int - 1,
        ) + days_in_month(d.year as int, d.month as int - 1));
    }
}

/// The previous day of a civil date.
pub open spec fn date_back_one(d: CivilDate) -> CivilDate {
    if d.day > 1 {
        CivilDate { year: d.year, month: d.month, day: (d.day - 1) as u32 }
    } else if d.month > 1 {
        CivilDate {
            year: d.year,
            month: (d.month - 1) as u32,
            day: days_in_month(d.year as int, d.month as int - 1) as u32,
        }
    } else {
        CivilDate { year: (d.year - 1) as i32, month: 12, day: 31 }
    }
}

/// The date `k` days before `d`.
pub open spec fn date_back(d: CivilDate, k: nat) -> CivilDate
    decreases k,
{
    if k == 0 {
        d
    } else {
        date_back_one(date_back(d, (k - 1) as nat))
    }
}

/// Steps one day back.
fn civil_back_one(d: CivilDate) -> (r: CivilDate)
    requires
        date_wf(d),
        d.year >= 2,
    ensures
        r == date_back_one(d),
        date_wf(r),
        r.year >= d.year - 1,
{
    if d.day > 1 {
        CivilDate { year: d.year, month: d.month, day: d.day - 1 }
    } else if d.month > 1 {
        CivilDate { year: d.year, month: d.month - 1, day: month_days(d.year, d.month - 1) }
    } else {
        CivilDate { year: d.year - 1, month: 12, day: 31 }
    }
}

/// Steps `k` days back.
pub fn civil_back(d: CivilDate, k: u32) -> (r: CivilDate)
    requires
        date_wf(d),
        k <= 1000,
        d.year >= 6,
    ensures
        r == date_back(d, k as nat),
        date_wf(r),
        r.year <= d.year,
        365 * (d.year - r.year) <= 371 + k,
{
    let mut cur = d;
    let mut i: u32 = 0;
    while i < k
        invariant
            i <= k,
            k <= 1000,
            cur == date_back(d, i as nat),
            date_wf(cur),
            cur.year >= d.year - i,
            cur.year <= d.year,
            day_of_year(cur) - 365 * (d.year - cur.year) + i >= day_of_year(d),
            date_wf(d),
            d.year >= 6,
        decreases k - i,
    {
        proof {
            lemma_month_prefix_bound(cur.year as int, cur.month as int);
            lemma_month_prefix_bound(d.year as int, d.month as int);
            assert(cur.year >= d.year - 3);
            lemma_back_one_day_of_year(cur);
        }
        cur = civil_back_one(cur);
        i = i + 1;
    }
    proof {
        lemma_month_prefix_bound(cur.year as int, cur.month as int);
        lemma_month_prefix_bound(d.year as int, d.month as int);
    }
    cur
}

/// The first day of the month after the given one.
pub open spec fn next_month_first(d: CivilDate) -> CivilDate {
    if d.month < 12 {
        CivilDate { year: d.year, month: (d.month + 1) as u32, day: 1 }
    } else {
        CivilDate { year: (d.year + 1) as i32, month: 1, day: 1 }
    }
}

/// The first day of the month before the given one.
pub open spec fn prev_month_first(d: CivilDate) -> CivilDate {
    if d.month > 1 {
        CivilDate { year: d.year, month: (d.month - 1) as u32, day: 1 }
    } else {
        CivilDate { year: (d.year - 1) as i32, month: 12, day: 1 }
    }
}

/// First of the next month.
pub fn get_next_month(d: CivilDate) -> (r: CivilDate)
    requires
        date_wf(d),
        d.year < 199_000,
    ensures
        r == next_month_first(d),
        date_wf(r),
{
    if d.month < 12 {
        CivilDate { year: d.year, month: d.month + 1, day: 1 }
    } else {
        CivilDate { year: d.year + 1, month: 1, day: 1 }
    }
}

/// First of the previous month.
pub fn get_previous_month(d: CivilDate) -> (r: CivilDate)
    requires
        date_wf(d),
        d.year >= 2,
    ensures
        r == prev_month_first(d),
        date_wf(r),
{
    if d.month > 1 {
        CivilDate { year: d.year, month: d.month - 1, day: 1 }
    } else {
        CivilDate { year: d.year - 1, month: 12, day: 1 }
    }
}

/// The window of the "s" unit: the event's second, or the interval of
/// `v` seconds it falls in when `v` exceeds one.
pub open spec fn window_second(ts: int, c: CivilTime, v: int) -> (int, int) {
    let base = ts - c.millis;
    let start = if v > 1 {
        base - (c.second as int % v) * 1000
    } else {
        base
    };
    (start, start + 1000)
}

/// The window of the "m" unit.
pub open spec fn window_minute(ts: int, c: CivilTime, v: int) -> (int, int) {
    let base = ts - c.second * 1000 - c.millis;
    let start = if v > 1 {
        base - (c.minute as int % v) * 60_000
    } else {
        base
    };
    (start, start + 60_000)
}

/// The window of the "h" unit.
pub open spec fn window_hour(ts: int, c: CivilTime, v: int) -> (int, int) {
    let base = ts - c.minute * 60_000 - c.second * 1000 - c.millis;
    let start = if v > 1 {
        base - (c.hour as int % v) * 3_600_000
    } else {
        base
    };
    (start, start + 3_600_000)
}

/// The window of the "d" unit: the interval is counted in days of the
/// common era.
pub open spec fn window_day(ts: int, c: CivilTime, v: int) -> (int, int) {
    let base = ts - c.hour * 3_600_000 - c.minute * 60_000 - c.second * 1000 - c.millis;
    let start = if v > 1 {
        base - (c.days_from_ce as int % v) * 86_400_000
    } else {
        base
    };
    (start, start + 86_400_000)
}

/// The first day of the event's week window: `v` names a weekday (from
/// the start of the week when non-negative, from its end when negative),
/// and the window starts on the latest such day not after the event.
pub open spec fn week_start_date(c: CivilTime, v: int) -> CivilDate {
    let offset = c.weekday_from_monday as int;
    let vv = if v < 0 {
        v + 7
    } else {
        v
    };
    let diff = if vv <= offset {
        offset - vv
    } else {
        7 - vv + offset
    };
    date_back(c.date, diff as nat)
}

/// The month window of the event: `v` names a day of the month (from its
/// start when non-negative, from its end when negative); the window runs
/// from the latest such day not after the event to the same mark one
/// month later.
pub open spec fn month_span(c: CivilTime, v: int) -> (CivilDate, CivilDate) {
    let offset = c.date.day as int - 1;
    let dim = days_in_month(c.date.year as int, c.date.month as int);
    let this_first = CivilDate { year: c.date.year, month: c.date.month, day: 1 };
    let nextf = next_month_first(this_first);
    let vv = if v < 0 {
        v + dim
    } else {
        v
    };
    if vv <= offset {
        let begin = CivilDate { year: c.date.year, month: c.date.month, day: (vv + 1) as u32 };
        let right = if v >= 0 {
            CivilDate { year: nextf.year, month: nextf.month, day: (1 + v) as u32 }
        } else {
            date_back(next_month_first(nextf), (-v) as nat)
        };
        (begin, right)
    } else {
        if v >= 0 {
            let prevf = prev_month_first(this_first);
            (
                CivilDate { year: prevf.year, month: prevf.month, day: (1 + v) as u32 },
                CivilDate { year: c.date.year, month: c.date.month, day: (1 + v) as u32 },
            )
        } else {
            (date_back(this_first, (-v) as nat), date_back(nextf, (-v) as nat))
        }
    }
}

/// The year window of the event: `v` names a day of the year; the window
/// runs from the latest such day not after the event to its anniversary.
/// The anniversary may not exist (a leap day): then there is no window.
pub open spec fn year_span(c: CivilTime, v: int) -> Option<(CivilDate, CivilDate)> {
    let offset = c.ordinal0 as int;
    let vv = if v < 0 {
        v + 365
    } else {
        v
    };
    let diff = if vv <= offset {
        offset - vv
    } else {
        365 - vv + offset
    };
    let left = date_back(c.date, diff as nat);
    if v >= 0 {
        let cand = CivilDate { year: (left.year + 1) as i32, month: left.month, day: left.day };
        if cand.day as int <= days_in_month(cand.year as int, cand.month as int) {
            Some((left, cand))
        } else {
            None
        }
    } else {
        let jan = CivilDate { year: (left.year + 2) as i32, month: 1, day: 1 };
        Some((left, date_back(jan, (-v) as nat)))
    }
}

/// The time-window setting: a unit and an offset or interval value.
///
/// Units "s", "m", "h" and "d" take an interval value (a value above one
/// groups that many seconds, minutes, hours or days). Units "w", "M" and
/// "y" take an offset value naming the window's first day, counted from
/// the start of the unit when non-negative and from its end when
/// negative; it must lie in [-7, 6], [-20, 19] and [-200, 199]
/// respectively.
#[derive(Debug, PartialEq)]
pub struct Setting {
    pub unit: String,
    pub value: i16,
}

/// Whether a setting names a known unit with a value in its range.
pub open spec fn valid_setting(s: Setting) -> bool {
    ||| s.unit@ == "s"@
    ||| s.unit@ == "m"@
    ||| s.unit@ == "h"@
    ||| s.unit@ == "d"@
    ||| (s.unit@ == "w"@ && -7 <= s.value <= 6)
    ||| (s.unit@ == "M"@ && -20 <= s.value <= 19)
    ||| (s.unit@ == "y"@ && -200 <= s.value <= 199)
}

/// How a window is realized: either outright in millis, or through the
/// local midnights of one or two civil dates.
#[derive(Debug, PartialEq, Eq, Structural)]
pub enum WindowPlan {
    /// Start and end, exact.
    Millis(i64, i64),
    /// The week starting on this date: its midnight, plus seven days.
    WeekOf(CivilDate),
    /// The midnights of the two dates.
    Span(CivilDate, CivilDate),
}

/// The window plan of a setting for an event time, or nothing when the
/// setting is invalid or the year window's anniversary does not exist.
pub open spec fn plan_spec(s: Setting, ts: int, c: CivilTime) -> Option<WindowPlan> {
    if s.unit@ == "s"@ {
        let w = window_second(ts, c, s.value as int);
        Some(WindowPlan::Millis(w.0 as i64, w.1 as i64))
    } else if s.unit@ == "m"@ {
        let w = window_minute(ts, c, s.value as int);
        Some(WindowPlan::Millis(w.0 as i64, w.1 as i64))
    } else if s.unit@ == "h"@ {
        let w = window_hour(ts, c, s.value as int);
        Some(WindowPlan::Millis(w.0 as i64, w.1 as i64))
    } else if s.unit@ == "d"@ {
        let w = window_day(ts, c, s.value as int);
        Some(WindowPlan::Millis(w.0 as i64, w.1 as i64))
    } else if s.unit@ == "w"@ {
        if -7 <= s.value <= 6 {
            Some(WindowPlan::WeekOf(week_start_date(c, s.value as int)))
        } else {
            None
        }
    } else if s.unit@ == "M"@ {
        if -20 <= s.value <= 19 {
            let p = month_span(c, s.value as int);
            Some(WindowPlan::Span(p.0, p.1))
        } else {
            None
        }
    } else if s.unit@ == "y"@ {
        if -200 <= s.value <= 199 {
            match year_span(c, s.value as int) {
                Some(p) => Some(WindowPlan::Span(p.0, p.1)),
                None => None,
            }
        } else {
            None
        }
    } else {
        None
    }
}

impl Setting {
    /// Computes the window plan for an event time over its local civil
    /// decomposition: exactly the plan the specification derives, or a
    /// logical error when the setting is invalid or the year window has
    /// no anniversary.
    pub fn window_plan(&self, ins_time: i64, c: &CivilTime) -> (r: Result<
        WindowPlan,
        NatureError,
    >)
        requires
            c.wf(),
            -61_000_000_000_000 <= ins_time <= 4_000_000_000_000_000,
        ensures
            match r {
                Ok(p) => plan_spec(*self, ins_time as int, *c) == Some(p),
                Err(e) => e is LogicalError && plan_spec(*self, ins_time as int, *c) is None,
            },
    {
        let v = self.value;
        if str_eq(self.unit.as_str(), "s") {
            let base = ins_time - c.millis as i64;
            let start = if v > 1 {
                base - ((c.second % (v as u32)) as i64) * 1000
            } else {
                base
            };
            Ok(WindowPlan::Millis(start, start + 1000))
        } else if str_eq(self.unit.as_str(), "m") {
            let base = ins_time - (c.second as i64) * 1000 - c.millis as i64;
            let start = if v > 1 {
                base - ((c.minute % (v as u32)) as i64) * 60_000
            } else {
                base
            };
            Ok(WindowPlan::Millis(start, start + 60_000))
        } else if str_eq(self.unit.as_str(), "h") {
            let base = ins_time - (c.minute as i64) * 60_000 - (c.second as i64) * 1000
                - c.millis as i64;
            let start = if v > 1 {
                base - ((c.hour % (v as u32)) as i64) * 3_600_000
            } else {
                base
            };
            Ok(WindowPlan::Millis(start, start + 3_600_000))
        } else if str_eq(self.unit.as_str(), "d") {
            let base = ins_time - (c.hour as i64) * 3_600_000 - (c.minute as i64) * 60_000 - (
            c.second as i64) * 1000 - c.millis as i64;
            let start = if v > 1 {
                base - ((c.days_from_ce % (v as i32)) as i64) * 86_400_000
            } else {
                base
            };
            Ok(WindowPlan::Millis(start, start + 86_400_000))
        } else if str_eq(self.unit.as_str(), "w") {
            if v > 6 || v < -7 {
                return Err(NatureError::LogicalError("value must in [-7,6]".to_owned()));
            }
            let offset = c.weekday_from_monday as i32;
            let vv: i32 = if v < 0 {
                v as i32 + 7
            } else {
                v as i32
            };
            let diff: i32 = if vv <= offset {
                offset - vv
            } else {
                7 - vv + offset
            };
            let d = civil_back(c.date, diff as u32);
            Ok(WindowPlan::WeekOf(d))
        } else if str_eq(self.unit.as_str(), "M") {
            if v > 19 || v < -20 {
                return Err(NatureError::LogicalError("the `value` must in [-20,19]".to_owned()));
            }
            let offset = c.date.day as i32 - 1;
            let dim = month_days(c.date.year, c.date.month) as i32;
            let this_first = CivilDate { year: c.date.year, month: c.date.month, day: 1 };
            let nextf = get_next_month(this_first);
            let vv: i32 = if v < 0 {
                v as i32 + dim
            } else {
                v as i32
            };
            if vv <= offset {
                let begin = CivilDate {
                    year: c.date.year,
                    month: c.date.month,
                    day: (vv + 1) as u32,
                };
                let right = if v >= 0 {
                    CivilDate { year: nextf.year, month: nextf.month, day: (1 + v) as u32 }
                } else {
                    let nnext = get_next_month(nextf);
                    civil_back(nnext, (-(v as i32)) as u32)
                };
                Ok(WindowPlan::Span(begin, right))
            } else {
                if v >= 0 {
                    let prevf = get_previous_month(this_first);
                    let left = CivilDate {
                        year: prevf.year,
                        month: prevf.month,
                        day: (1 + v) as u32,
                    };
                    let right = CivilDate {
                        year: c.date.year,
                        month: c.date.month,
                        day: (1 + v) as u32,
                    };
                    Ok(WindowPlan::Span(left, right))
                } else {
                    let left = civil_back(this_first, (-(v as i32)) as u32);
                    let right = civil_back(nextf, (-(v as i32)) as u32);
                    Ok(WindowPlan::Span(left, right))
                }
            }
        } else if str_eq(self.unit.as_str(), "y") {
            if v > 199 || v < -200 {
                return Err(NatureError::LogicalError("value must in [-200,199]".to_owned()));
            }
            let offset = c.ordinal0 as i32;
            let vv: i32 = if v < 0 {
                v as i32 + 365
            } else {
                v as i32
            };
            let diff: i32 = if vv <= offset {
                offset - vv
            } else {
                365 - vv + offset
            };
            let left = civil_back(c.date, diff as u32);
            if v >= 0 {
                let cand = CivilDate { year: left.year + 1, month: left.month, day: left.day };
                if cand.day <= month_days(cand.year, cand.month) {
                    Ok(WindowPlan::Span(left, cand))
                } else {
                    return Err(
                        NatureError::LogicalError("the window has no anniversary".to_owned()),
                    );
                }
            } else {
                let jan = CivilDate { year: left.year + 2, month: 1, day: 1 };
                let right = civil_back(jan, (-(v as i32)) as u32);
                Ok(WindowPlan::Span(left, right))
            }
        } else {
            Err(NatureError::LogicalError("unknown unit".to_owned()))
        }
    }

    /// Whether a realized window fits the plan: sub-day windows are
    /// exact; a week window is seven days wide from its start's local
    /// midnight; a month or year window runs between two local midnights.
    pub open spec fn plan_matches(p: Option<WindowPlan>, w: (i64, i64)) -> bool {
        match p {
            Some(WindowPlan::Millis(a, b)) => w == (a, b),
            Some(WindowPlan::WeekOf(_)) => w.1 == w.0 + 604_800_000,
            Some(WindowPlan::Span(_, _)) => true,
            None => false,
        }
    }

    /// The event's time window in epoch millis: the plan is computed from
    /// the event time's local civil decomposition, and civil endpoints
    /// are realized as their local midnights. An invalid setting is a
    /// logical error; so is a date the local calendar cannot place.
    pub fn get_time(&self, ins_time: i64) -> (r: Result<(i64, i64), NatureError>)
        requires
            -61_000_000_000_000 <= ins_time <= 4_000_000_000_000_000,
        ensures
            r matches Err(e) ==> e is LogicalError,
            !valid_setting(*self) ==> r is Err,
            // the sub-day units never fail: no calendar conversion is
            // involved and every value is accepted
            (self.unit@ == "s"@ || self.unit@ == "m"@ || self.unit@ == "h"@ || self.unit@
                == "d"@) ==> r is Ok,
            r matches Ok(w) ==> exists|c: CivilTime|
                c.wf() && Self::plan_matches(plan_spec(*self, ins_time as int, c), w),
    {
        let c = local_civil_of(ins_time);
        let plan = match self.window_plan(ins_time, &c) {
            Ok(p) => p,
            Err(e) => {
                return Err(e);
            },
        };
        match plan {
            WindowPlan::Millis(a, b) => {
                proof {
                    assert(c.wf() && Self::plan_matches(
                        plan_spec(*self, ins_time as int, c),
                        (a, b),
                    ));
                }
                Ok((a, b))
            },
            WindowPlan::WeekOf(d) => {
                match local_midnight_millis(d.year, d.month, d.day) {
                    Some(m) => {
                        proof {
                            assert(c.wf() && Self::plan_matches(
                                plan_spec(*self, ins_time as int, c),
                                (m, (m + 604_800_000) as i64),
                            ));
                        }
                        Ok((m, m + 604_800_000))
                    },
                    None => Err(
                        NatureError::LogicalError("date outside the local calendar".to_owned()),
                    ),
                }
            },
            WindowPlan::Span(a, b) => {
                let ma = match local_midnight_millis(a.year, a.month, a.day) {
                    Some(m) => m,
                    None => {
                        return Err(
                            NatureError::LogicalError(
                                "date outside the local calendar".to_owned(),
                            ),
                        );
                    },
                };
                let mb = match local_midnight_millis(b.year, b.month, b.day) {
                    Some(m) => m,
                    None => {
                        return Err(
                            NatureError::LogicalError(
                                "date outside the local calendar".to_owned(),
                            ),
                        );
                    },
                };
                proof {
                    assert(c.wf() && Self::plan_matches(
                        plan_spec(*self, ins_time as int, c),
                        (ma, mb),
                    ));
                }
                Ok((ma, mb))
            },
        }
    }
}

/// The canonical JSON rendering of a setting: fields with their default
/// values (unit "s", value 0) are left out.
pub open spec fn setting_json_spec(s: Setting) -> Seq<char> {
    if s.unit@ == "s"@ && s.value == 0 {
        "{}"@
    } else if s.value == 0 {
        "{\"unit\":\""@ + json_escaped(s.unit@) + "\"}"@
    } else if s.unit@ == "s"@ {
        "{\"value\":"@ + dec_str_signed(s.value as int) + "}"@
    } else {
        "{\"unit\":\""@ + json_escaped(s.unit@) + "\",\"value\":"@ + dec_str_signed(
            s.value as int,
        ) + "}"@
    }
}

/// Whether a unit name is the default unit.
pub fn is_s(cmp: &str) -> (r: bool)
    ensures
        r == (cmp@ == "s"@),
{
    str_eq(cmp, "s")
}

/// The default unit's name.
pub fn string_s() -> (r: String)
    ensures
        r@ == "s"@,
{
    "s".to_owned()
}

/// Renders a setting as its canonical JSON.
pub fn setting_to_json(s: &Setting) -> (r: String)
    ensures
        r@ == setting_json_spec(*s),
{
    let mut out: Vec<char> = Vec::new();
    let unit_is_s = is_s(s.unit.as_str());
    if unit_is_s && s.value == 0 {
        push_str_chars(&mut out, "{}");
    } else if s.value == 0 {
        push_str_chars(&mut out, "{\"unit\":\"");
        push_json_escaped(&mut out, s.unit.as_str());
        push_str_chars(&mut out, "\"}");
    } else if unit_is_s {
        push_str_chars(&mut out, "{\"value\":");
        push_dec_i16(&mut out, s.value);
        push_str_chars(&mut out, "}");
    } else {
        push_str_chars(&mut out, "{\"unit\":\"");
        push_json_escaped(&mut out, s.unit.as_str());
        push_str_chars(&mut out, "\",\"value\":");
        push_dec_i16(&mut out, s.value);
        push_str_chars(&mut out, "}");
    }
    proof {
        assert(out@ =~= setting_json_spec(*s));
    }
    string_from_chars(&out)
}

/// Whether the character at `i` is a decimal digit.
fn char_is_digit(s: &str, i: usize) -> (r: bool)
    requires
        i < s@.len(),
    ensures
        r == (48 <= s@[i as int] as u32 <= 57),
{
    let c = s.get_char(i) as u32;
    48 <= c && c <= 57
}

/// Whether the character at `i` is JSON whitespace.
fn char_is_ws(s: &str, i: usize) -> (r: bool)
    requires
        i < s@.len(),
{
    let c = s.get_char(i);
    c == ' ' || c == '\t' || c == '\n' || c == '\r'
}

/// The first non-whitespace position at or after `start`.
fn skip_ws_from(s: &str, start: usize, n: usize) -> (r: usize)
    requires
        n == s@.len(),
        start <= n,
    ensures
        start <= r <= n,
{
    let mut i = start;
    while i < n && char_is_ws(s, i)
        invariant
            n == s@.len(),
            start <= i <= n,
        decreases n - i,
    {
        i = i + 1;
    }
    i
}

/// Reads a setting from its text, tolerating whitespace, either field
/// order, spelled-out defaults and repeated keys (the last one wins).
/// Returns which fields were present and their order; the checked parser
/// below holds the result to a rendering of that very shape.
fn read_setting(s: &str) -> (r: Option<(Setting, bool, bool, bool)>) {
    let n = s.unicode_len();
    let mut unit = string_s();
    let mut value: i16 = 0;
    let mut has_unit = false;
    let mut has_value = false;
    let mut value_first = false;
    let mut i: usize = skip_ws_from(s, 0, n);
    if i >= n || s.get_char(i) != '{' {
        return None;
    }
    i = skip_ws_from(s, i + 1, n);
    if i < n && s.get_char(i) == '}' {
        if skip_ws_from(s, i + 1, n) == n {
            return Some((Setting { unit, value }, false, false, false));
        }
        return None;
    }
    loop
        invariant
            n == s@.len(),
            i <= n,
        decreases n - i,
    {
        // a key
        if i >= n || s.get_char(i) != '"' {
            return None;
        }
        i = i + 1;
        let key_start = i;
        while i < n && s.get_char(i) != '"'
            invariant
                n == s@.len(),
                key_start <= i <= n,
            decreases n - i,
        {
            i = i + 1;
        }
        if i >= n {
            return None;
        }
        let key_len = i - key_start;
        let key_is_unit = key_len == 4 && s.get_char(key_start) == 'u' && s.get_char(
            key_start + 1,
        ) == 'n' && s.get_char(key_start + 2) == 'i' && s.get_char(key_start + 3) == 't';
        let key_is_value = key_len == 5 && s.get_char(key_start) == 'v' && s.get_char(
            key_start + 1,
        ) == 'a' && s.get_char(key_start + 2) == 'l' && s.get_char(key_start + 3) == 'u'
            && s.get_char(key_start + 4) == 'e';
        if !key_is_unit && !key_is_value {
            return None;
        }
        i = skip_ws_from(s, i + 1, n);
        if i >= n || s.get_char(i) != ':' {
            return None;
        }
        i = skip_ws_from(s, i + 1, n);
        if key_is_unit {
            if i >= n || s.get_char(i) != '"' {
                return None;
            }
            i = i + 1;
            let ghost u0 = i;
            let mut chars: Vec<char> = Vec::new();
            while i < n && s.get_char(i) != '"'
                invariant
                    n == s@.len(),
                    u0 <= i <= n,
                decreases n - i,
            {
                let c = s.get_char(i);
                if c == '\\' {
                    return None;
                }
                chars.push(c);
                i = i + 1;
            }
            if i >= n {
                return None;
            }
            i = i + 1;
            unit = string_from_chars(&chars);
            has_unit = true;
        } else {
            let mut neg = false;
            if i < n && s.get_char(i) == '-' {
                neg = true;
                i = i + 1;
            }
            let mut digits: u32 = 0;
            let mut acc: i32 = 0;
            let ghost d0 = i;
            while i < n && char_is_digit(s, i)
                invariant
                    n == s@.len(),
                    d0 <= i <= n,
                    0 <= acc <= 99_999,
                decreases n - i,
            {
                if acc > 9_999 {
                    return None;
                }
                let d = (s.get_char(i) as u32) - 48;
                acc = acc * 10 + d as i32;
                digits = if digits < 10 {
                    digits + 1
                } else {
                    digits
                };
                i = i + 1;
            }
            if digits == 0 {
                return None;
            }
            if neg {
                if acc > 32_768 {
                    return None;
                }
                value = (-acc) as i16;
            } else {
                if acc > 32_767 {
                    return None;
                }
                value = acc as i16;
            }
            if !has_unit {
                value_first = true;
            }
            has_value = true;
        }
        i = skip_ws_from(s, i, n);
        if i >= n {
            return None;
        }
        if s.get_char(i) == '}' {
            if skip_ws_from(s, i + 1, n) == n {
                return Some((Setting { unit, value }, has_unit, has_value, value_first));
            }
            return None;
        }
        if s.get_char(i) != ',' {
            return None;
        }
        i = skip_ws_from(s, i + 1, n);
    }
}

/// The JSON rendering of a setting in a given shape: which of the two
/// fields appear, and in which order when both do.
pub open spec fn render_spec(st: Setting, hu: bool, hv: bool, vf: bool) -> Seq<char> {
    if !hu && !hv {
        "{}"@
    } else if hu && !hv {
        "{\"unit\":\""@ + json_escaped(st.unit@) + "\"}"@
    } else if !hu && hv {
        "{\"value\":"@ + dec_str_signed(st.value as int) + "}"@
    } else if !vf {
        "{\"unit\":\""@ + json_escaped(st.unit@) + "\",\"value\":"@ + dec_str_signed(
            st.value as int,
        ) + "}"@
    } else {
        "{\"value\":"@ + dec_str_signed(st.value as int) + ",\"unit\":\""@ + json_escaped(
            st.unit@,
        ) + "\"}"@
    }
}

/// Renders a setting in the given shape.
fn render_for(st: &Setting, hu: bool, hv: bool, vf: bool) -> (r: Vec<char>)
    ensures
        r@ == render_spec(*st, hu, hv, vf),
{
    let mut out: Vec<char> = Vec::new();
    if !hu && !hv {
        push_str_chars(&mut out, "{}");
    } else if hu && !hv {
        push_str_chars(&mut out, "{\"unit\":\"");
        push_json_escaped(&mut out, st.unit.as_str());
        push_str_chars(&mut out, "\"}");
    } else if !hu && hv {
        push_str_chars(&mut out, "{\"value\":");
        push_dec_i16(&mut out, st.value);
        push_str_chars(&mut out, "}");
    } else if !vf {
        push_str_chars(&mut out, "{\"unit\":\"");
        push_json_escaped(&mut out, st.unit.as_str());
        push_str_chars(&mut out, "\",\"value\":");
        push_dec_i16(&mut out, st.value);
        push_str_chars(&mut out, "}");
    } else {
        push_str_chars(&mut out, "{\"value\":");
        push_dec_i16(&mut out, st.value);
        push_str_chars(&mut out, ",\"unit\":\"");
        push_json_escaped(&mut out, st.unit.as_str());
        push_str_chars(&mut out, "\"}");
    }
    proof {
        assert(out@ =~= render_spec(*st, hu, hv, vf));
    }
    out
}

/// Whether a text is a JSON rendering of this setting, up to
/// whitespace: one of the five shapes a setting can be written in, with
/// every absent field at its default.
pub open spec fn denotes(s: Seq<char>, st: Setting) -> bool {
    ||| (strip_ws(s) == render_spec(st, false, false, false) && st.unit@ == "s"@ && st.value
        == 0)
    ||| (strip_ws(s) == render_spec(st, true, false, false) && st.value == 0)
    ||| (strip_ws(s) == render_spec(st, false, true, false) && st.unit@ == "s"@)
    ||| strip_ws(s) == render_spec(st, true, true, false)
    ||| strip_ws(s) == render_spec(st, true, true, true)
}

/// Parses a setting, accepting whitespace, either field order and
/// spelled-out defaults. Whatever is returned is exact: the input is a
/// rendering of the returned setting, and a field that was absent holds
/// its default. An empty object, however decorated with whitespace,
/// always parses to the all-default setting.
pub fn parse_setting(s: &str) -> (r: Option<Setting>)
    ensures
        r matches Some(st) ==> denotes(s@, st),
        strip_ws(s@) == "{}"@ ==> (r matches Some(st) && st.unit@ == "s"@ && st.value == 0),
{
    let stripped = strip_ws_str(s);
    let mut empty_obj: Vec<char> = Vec::new();
    push_str_chars(&mut empty_obj, "{}");
    if chars_eq(&stripped, &empty_obj) {
        let st = Setting { unit: string_s(), value: 0 };
        proof {
            assert(denotes(s@, st));
        }
        return Some(st);
    }
    let (st, hu, hv, vf) = match read_setting(s) {
        Some(t) => t,
        None => {
            return None;
        },
    };
    if !hu && !is_s(st.unit.as_str()) {
        return None;
    }
    if !hv && st.value != 0 {
        return None;
    }
    let canon = render_for(&st, hu, hv, vf);
    if chars_eq(&stripped, &canon) {
        proof {
            assert(denotes(s@, st));
        }
        Some(st)
    } else {
        None
    }
}

/// The snapshot a time-window conversion produces: an otherwise empty
/// snapshot whose content carries the window as `start/end`.
pub fn make_window_instance(start: i64, end: i64) -> (r: Instance)
    ensures
        r.data.content@ == dec_str_signed(start as int) + seq!['/'] + dec_str_signed(end as int),
        r.id == 0,
        r.data.context@.len() == 0,
        r.data.status@.len() == 0,
        r.data.status_version == 0,
        r.wf(),
{
    let mut content: Vec<char> = Vec::new();
    push_dec_i64(&mut content, start);
    content.push('/');
    push_dec_i64(&mut content, end);
    proof {
        assert(content@ =~= dec_str_signed(start as int) + seq!['/'] + dec_str_signed(
            end as int,
        ));
    }
    Instance {
        id: 0,
        data: InstanceNoID {
            thing: Thing { key: String::new(), version: 1, thing_type: ThingType::Business },
            event_time: 0,
            execute_time: 0,
            create_time: 0,
            content: string_from_chars(&content),
            context: Vec::new(),
            status: Vec::new(),
            status_version: 0,
        },
    }
}

/// What an emitted window snapshot accounts for: some setting the
/// configuration text denotes, valid, whose plan over some local civil
/// decomposition of the creation time the emitted pair fits; the content
/// is that pair, rendered.
pub open spec fn window_emitted(
    cfg: Seq<char>,
    from_time: int,
    st: Setting,
    a: i64,
    b: i64,
    content: Seq<char>,
) -> bool {
    &&& denotes(cfg, st)
    &&& valid_setting(st)
    &&& (exists|c: CivilTime|
        c.wf() && Setting::plan_matches(plan_spec(st, from_time, c), (a, b)))
    &&& content == dec_str_signed(a as int) + seq!['/'] + dec_str_signed(b as int)
}

/// Generates a time-window delivery parameter: reads the setting from
/// the converter configuration, computes the window of the source
/// snapshot's creation time, and hands back one snapshot carrying it.
/// A bad setting or an unplaceable time is a logical error, never a
/// panic.
pub fn time_range(input: &ConverterParameter) -> (r: ConverterReturned)
    ensures
        // whatever is emitted is the window of a setting the text denotes
        r matches ConverterReturned::Instances(v) ==> v@.len() == 1 && (exists|
            st: Setting,
            a: i64,
            b: i64,
        |
            window_emitted(
                input.cfg@,
                input.from.data.create_time as int,
                st,
                a,
                b,
                v@[0].data.content@,
            )),
        // a text that denotes no setting is a logical error, always
        (forall|st: Setting| !denotes(input.cfg@, st)) ==> r is LogicalError,
        // success is owed on the empty (all-default) setting, however
        // the text spells it, and an in-range creation time: the
        // sub-day units never fail
        strip_ws(input.cfg@) == "{}"@ && -61_000_000_000_000 <= input.from.data.create_time
            <= 4_000_000_000_000_000 ==> r is Instances,
{
    let cfg = match parse_setting(input.cfg.as_str()) {
        Some(c) => c,
        None => {
            return ConverterReturned::LogicalError("unreadable setting".to_owned());
        },
    };
    let t = input.from.data.create_time;
    if t < -61_000_000_000_000 || t > 4_000_000_000_000_000 {
        return ConverterReturned::LogicalError("time out of range".to_owned());
    }
    match cfg.get_time(t) {
        Ok((a, b)) => {
            let inst = make_window_instance(a, b);
            let mut v: Vec<Instance> = Vec::new();
            v.push(inst);
            proof {
                assert(window_emitted(
                    input.cfg@,
                    input.from.data.create_time as int,
                    cfg,
                    a,
                    b,
                    v@[0].data.content@,
                ));
            }
            ConverterReturned::Instances(v)
        },
        Err(e) => ConverterReturned::LogicalError(e.message()),
    }
}

} // verus!
