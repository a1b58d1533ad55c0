//! The proleptic Gregorian calendar on plain integers: leap years, month
//! lengths, and the carry from days into months and from months into years.

use vstd::prelude::*;

verus! {

/// A calendar date as unbounded integers. Every contract in this crate that
/// speaks of a date speaks of a value of this type.
pub struct Ymd {
    pub year: int,
    pub month: int,
    pub day: int,
}

/// The Gregorian leap-year rule: every fourth year, except centuries that are
/// not divisible by 400.
pub open spec fn is_leap_year(year: int) -> bool {
    year % 4 == 0 && (year % 100 != 0 || year % 400 == 0)
}

/// The number of days of `month` in `year`; meaningful for months 1 to 12.
pub open spec fn days_in_month(year: int, month: int) -> int {
    if month == 2 {
        if is_leap_year(year) {
            29
        } else {
            28
        }
    } else if month == 4 || month == 6 || month == 9 || month == 11 {
        30
    } else {
        31
    }
}

/// The year and month reached from `(year, month)` by going `delta` months
/// forward, for a `delta` that leaves at most one year boundary to cross.
pub open spec fn rolled_month(year: int, month: int, delta: int) -> (int, int) {
    let m = month + delta;
    if m < 1 {
        (year - 1, m + 12)
    } else if m > 12 {
        (year + 1, m - 12)
    } else {
        (year, m)
    }
}

impl Ymd {
    /// The date exists in the calendar.
    pub open spec fn is_date(self) -> bool {
        1 <= self.month <= 12 && 1 <= self.day <= days_in_month(self.year, self.month)
    }

    /// The three numbers fit the machine types that hold them.
    pub open spec fn representable(self) -> bool {
        &&& i32::MIN <= self.year <= i32::MAX
        &&& 0 <= self.month <= u32::MAX
        &&& 0 <= self.day <= u32::MAX
    }

    /// Strictly earlier than `other`.
    pub open spec fn precedes(self, other: Ymd) -> bool {
        ||| self.year < other.year
        ||| self.year == other.year && self.month < other.month
        ||| self.year == other.year && self.month == other.month && self.day < other.day
    }

    /// The same year and month, with the day lowered to the month's last day
    /// where it lies beyond it.
    pub open spec fn clamped(self) -> Ymd {
        let last = days_in_month(self.year, self.month);
        Ymd { day: if self.day > last { last } else { self.day }, ..self }
    }

    /// The date `delta` years away, day clamped to the new month's length.
    pub open spec fn shift_year(self, delta: int) -> Ymd {
        Ymd { year: self.year + delta, ..self }.clamped()
    }

    /// The date `delta` months away, carried into the neighbouring year where
    /// the month leaves 1 to 12, day clamped to the new month's length.
    pub open spec fn shift_month(self, delta: int) -> Ymd {
        let (year, month) = rolled_month(self.year, self.month, delta);
        Ymd { year, month, day: self.day }.clamped()
    }

    /// The date `delta` days away, for `delta` of -1 or 1: below day 1 it is
    /// the last day of the month before, beyond the month's length it is day 1
    /// of the month after.
    pub open spec fn shift_day(self, delta: int) -> Ymd {
        let day = self.day + delta;
        if day < 1 {
            let (year, month) = rolled_month(self.year, self.month, -1);
            Ymd { year, month, day: days_in_month(year, month) }
        } else if day > days_in_month(self.year, self.month) {
            let (year, month) = rolled_month(self.year, self.month, 1);
            Ymd { year, month, day: 1 }
        } else {
            Ymd { day, ..self }
        }
    }

    /// The day after.
    pub open spec fn next(self) -> Ymd {
        self.shift_day(1)
    }

    /// The day before.
    pub open spec fn prev(self) -> Ymd {
        self.shift_day(-1)
    }
}

/// The day after a date and the day before it exist, lie on either side of
/// it, and lead back to it.
pub proof fn lemma_next_and_prev(date: Ymd)
    requires
        date.is_date(),
    ensures
        date.next().is_date(),
        date.prev().is_date(),
        date.prev().precedes(date),
        date.precedes(date.next()),
        date.next().prev() == date,
        date.prev().next() == date,
{
}

/// The three-letter English name of a month; meaningful for months 1 to 12.
pub open spec fn month_abbreviation(month: int) -> Seq<char> {
    if month == 1 {
        "Jan"@
    } else if month == 2 {
        "Feb"@
    } else if month == 3 {
        "Mar"@
    } else if month == 4 {
        "Apr"@
    } else if month == 5 {
        "May"@
    } else if month == 6 {
        "Jun"@
    } else if month == 7 {
        "Jul"@
    } else if month == 8 {
        "Aug"@
    } else if month == 9 {
        "Sep"@
    } else if month == 10 {
        "Oct"@
    } else if month == 11 {
        "Nov"@
    } else {
        "Dec"@
    }
}

/// The three-letter English name of month `i`.
pub fn month_name(i: u32) -> (name: &'static str)
    requires
        1 <= i <= 12,
    ensures
        name@ == month_abbreviation(i as int),
{
    match i {
        1 => "Jan",
        2 => "Feb",
        3 => "Mar",
        4 => "Apr",
        5 => "May",
        6 => "Jun",
        7 => "Jul",
        8 => "Aug",
        9 => "Sep",
        10 => "Oct",
        11 => "Nov",
        _ => "Dec",
    }
}

/// Whether `year` is a leap year.
pub fn leap_year(year: i32) -> (leap: bool)
    ensures
        leap == is_leap_year(year as int),
{
    year % 4 == 0 && (year % 100 != 0 || year % 400 == 0)
}

/// The last day of `month` in `year`: 28, 29, 30 or 31.
pub fn last_day_of_month(year: i32, month: u32) -> (last: u32)
    requires
        1 <= month <= 12,
    ensures
        last == days_in_month(year as int, month as int),
        28 <= last <= 31,
{
    if month == 2 {
        if leap_year(year) {
            29
        } else {
            28
        }
    } else if month == 4 || month == 6 || month == 9 || month == 11 {
        30
    } else {
        31
    }
}

/// Carries a month that was stepped by one out of 1 to 12 into the
/// neighbouring year.
pub fn roll_month(year: i32, month: u32, delta: i32) -> (rolled: (i32, u32))
    requires
        1 <= month <= 12,
        delta == 1 || delta == -1,
        i32::MIN <= rolled_month(year as int, month as int, delta as int).0 <= i32::MAX,
    ensures
        (rolled.0 as int, rolled.1 as int) == rolled_month(year as int, month as int, delta as int),
        1 <= rolled.1 <= 12,
{
    if delta == 1 {
        if month == 12 {
            (year + 1, 1)
        } else {
            (year, month + 1)
        }
    } else {
        if month == 1 {
            (year - 1, 12)
        } else {
            (year, month - 1)
        }
    }
}

/// A concrete calendar date, as held by a grid cell or by the bound value
/// that a picker edits.
#[derive(Clone, Copy, Debug, PartialEq, Eq, Structural)]
pub struct CalendarDay {
    pub year: i32,
    pub month: u32,
    pub day: u32,
}

impl View for CalendarDay {
    type V = Ymd;

    open spec fn view(&self) -> Ymd {
        Ymd { year: self.year as int, month: self.month as int, day: self.day as int }
    }
}

impl CalendarDay {
    /// The date exists in the calendar.
    pub open spec fn well_formed(&self) -> bool {
        self@.is_date()
    }

    /// The date of the three numbers, if there is one.
    pub fn new(year: i32, month: u32, day: u32) -> (date: Option<CalendarDay>)
        ensures
            date is Some <==> (CalendarDay { year, month, day }).well_formed(),
            date matches Some(d) ==> d == (CalendarDay { year, month, day }),
    {
        let candidate = CalendarDay { year, month, day };
        if candidate.is_valid() {
            Some(candidate)
        } else {
            None
        }
    }

    /// Whether the date exists in the calendar.
    pub fn is_valid(&self) -> (valid: bool)
        ensures
            valid == self.well_formed(),
    {
        1 <= self.month && self.month <= 12 && 1 <= self.day
            && self.day <= last_day_of_month(self.year, self.month)
    }

    /// The date `delta` days away, for `delta` of -1 or 1.
    pub fn step_day(&self, delta: i32) -> (stepped: CalendarDay)
        requires
            self.well_formed(),
            delta == 1 || delta == -1,
            self@.shift_day(delta as int).representable(),
        ensures
            stepped@ == self@.shift_day(delta as int),
            stepped.well_formed(),
    {
        if delta == 1 {
            if self.day == last_day_of_month(self.year, self.month) {
                let (year, month) = roll_month(self.year, self.month, 1);
                CalendarDay { year, month, day: 1 }
            } else {
                CalendarDay { year: self.year, month: self.month, day: self.day + 1 }
            }
        } else {
            if self.day == 1 {
                let (year, month) = roll_month(self.year, self.month, -1);
                CalendarDay { year, month, day: last_day_of_month(year, month) }
            } else {
                CalendarDay { year: self.year, month: self.month, day: self.day - 1 }
            }
        }
    }
}

} // verus!
