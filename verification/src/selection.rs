//! The working selection: the copy of the bound date that a picker edits
//! until the caller commits it.

use crate::calendar::{days_in_month, last_day_of_month, roll_month, CalendarDay, Ymd};
use vstd::prelude::*;

verus! {

/// The date being edited, and whether it has been taken from the bound date
/// since the picker was last shown.
#[derive(Clone, Copy, Debug, PartialEq, Eq, Structural)]
pub struct WorkingSelection {
    pub year: i32,
    pub month: u32,
    pub day: u32,
    pub initialized: bool,
}

impl Default for WorkingSelection {
    /// All fields zero, not initialized.
    fn default() -> (fresh: WorkingSelection)
        ensures
            fresh == (WorkingSelection { year: 0, month: 0, day: 0, initialized: false }),
            fresh.well_formed(),
    {
        WorkingSelection { year: 0, month: 0, day: 0, initialized: false }
    }
}

impl WorkingSelection {
    /// The year, month and day that the selection holds.
    pub open spec fn date(&self) -> Ymd {
        Ymd { year: self.year as int, month: self.month as int, day: self.day as int }
    }

    /// Once initialized, the selection holds a date that exists.
    pub open spec fn well_formed(&self) -> bool {
        self.initialized ==> self.date().is_date()
    }

    /// What `select_date` leaves: the given date, in place of the one held.
    pub open spec fn selected(&self, year: i32, month: u32, day: u32) -> WorkingSelection {
        WorkingSelection { year, month, day, initialized: self.initialized }
    }

    /// What `commit_to` writes: the date held.
    pub open spec fn committed(&self) -> CalendarDay {
        CalendarDay { year: self.year, month: self.month, day: self.day }
    }

    /// What `initialize_from` leaves: the selection itself once it is
    /// initialized, else the given date, marked initialized.
    pub open spec fn initialized_from(&self, date: CalendarDay) -> WorkingSelection {
        if self.initialized {
            *self
        } else {
            WorkingSelection { year: date.year, month: date.month, day: date.day, initialized: true }
        }
    }

    /// Whether the invariant holds: to be tested on a selection that comes
    /// from storage before it is used.
    pub fn is_well_formed(&self) -> (ok: bool)
        ensures
            ok == self.well_formed(),
    {
        let held = CalendarDay { year: self.year, month: self.month, day: self.day };
        !self.initialized || held.is_valid()
    }

    /// Takes the bound date on the first call of a session; later calls
    /// change nothing.
    pub fn initialize_from(&mut self, date: &CalendarDay)
        requires
            date.well_formed(),
            old(self).well_formed(),
        ensures
            *final(self) == old(self).initialized_from(*date),
            final(self).initialized,
            final(self).well_formed(),
    {
        if !self.initialized {
            self.year = date.year;
            self.month = date.month;
            self.day = date.day;
            self.initialized = true;
        }
    }

    /// The last day of the selected month.
    pub fn last_day_of_month(&self) -> (last: u32)
        requires
            1 <= self.month <= 12,
        ensures
            last == days_in_month(self.year as int, self.month as int),
            28 <= last <= 31,
    {
        last_day_of_month(self.year, self.month)
    }

    /// Lowers the day to the last day of the selected month where it lies
    /// beyond it.
    fn clamp_day(&mut self)
        requires
            1 <= old(self).month <= 12,
        ensures
            final(self).date() == old(self).date().clamped(),
            final(self).initialized == old(self).initialized,
    {
        let last = last_day_of_month(self.year, self.month);
        if self.day > last {
            self.day = last;
        }
    }

    /// Sets the year and clamps the day.
    pub fn set_year(&mut self, year: i32)
        requires
            old(self).date().is_date(),
        ensures
            final(self).date() == (Ymd { year: year as int, ..old(self).date() }).clamped(),
            final(self).initialized == old(self).initialized,
            final(self).date().is_date(),
    {
        self.year = year;
        self.clamp_day();
    }

    /// Sets the month and clamps the day.
    pub fn set_month(&mut self, month: u32)
        requires
            old(self).date().is_date(),
            1 <= month <= 12,
        ensures
            final(self).date() == (Ymd { month: month as int, ..old(self).date() }).clamped(),
            final(self).initialized == old(self).initialized,
            final(self).date().is_date(),
    {
        self.month = month;
        self.clamp_day();
    }

    /// Sets the day, which the caller took from the days of the selected
    /// month.
    pub fn set_day(&mut self, day: u32)
        requires
            (Ymd { day: day as int, ..old(self).date() }).is_date(),
        ensures
            final(self).date() == (Ymd { day: day as int, ..old(self).date() }),
            final(self).initialized == old(self).initialized,
            final(self).date().is_date(),
    {
        self.day = day;
    }

    /// Goes one year back or forward and clamps the day.
    pub fn step_year(&mut self, delta: i32)
        requires
            old(self).date().is_date(),
            delta == 1 || delta == -1,
            old(self).date().shift_year(delta as int).representable(),
        ensures
            final(self).date() == old(self).date().shift_year(delta as int),
            final(self).initialized == old(self).initialized,
            final(self).date().is_date(),
    {
        self.year = self.year + delta;
        self.clamp_day();
    }

    /// Goes one month back or forward, into the neighbouring year where the
    /// month leaves 1 to 12, and clamps the day.
    pub fn step_month(&mut self, delta: i32)
        requires
            old(self).date().is_date(),
            delta == 1 || delta == -1,
            old(self).date().shift_month(delta as int).representable(),
        ensures
            final(self).date() == old(self).date().shift_month(delta as int),
            final(self).initialized == old(self).initialized,
            final(self).date().is_date(),
    {
        let (year, month) = roll_month(self.year, self.month, delta);
        self.year = year;
        self.month = month;
        self.clamp_day();
    }

    /// Goes one day back or forward, into the neighbouring month, and year,
    /// where the day leaves the selected month.
    pub fn step_day(&mut self, delta: i32)
        requires
            old(self).date().is_date(),
            delta == 1 || delta == -1,
            old(self).date().shift_day(delta as int).representable(),
        ensures
            final(self).date() == old(self).date().shift_day(delta as int),
            final(self).initialized == old(self).initialized,
            final(self).date().is_date(),
    {
        let held = CalendarDay { year: self.year, month: self.month, day: self.day };
        let stepped = held.step_day(delta);
        self.year = stepped.year;
        self.month = stepped.month;
        self.day = stepped.day;
    }

    /// Replaces the date by the one that was picked.
    pub fn select_date(&mut self, year: i32, month: u32, day: u32)
        requires
            (Ymd { year: year as int, month: month as int, day: day as int }).is_date(),
        ensures
            *final(self) == old(self).selected(year, month, day),
            final(self).date().is_date(),
    {
        self.year = year;
        self.month = month;
        self.day = day;
    }

    /// Writes the selected date to the bound date.
    pub fn commit_to(&self, date: &mut CalendarDay)
        requires
            self.date().is_date(),
        ensures
            *final(date) == self.committed(),
            final(date).well_formed(),
    {
        date.year = self.year;
        date.month = self.month;
        date.day = self.day;
    }

    /// Ends the session: the next `initialize_from` takes the bound date
    /// again.
    pub fn reset(&mut self)
        ensures
            *final(self) == (WorkingSelection { initialized: false, ..*old(self) }),
            final(self).well_formed(),
    {
        self.initialized = false;
    }
}

/// `initialize_from` is idempotent: once a selection has taken a bound date,
/// taking another one changes nothing.
pub proof fn lemma_initialize_from_idempotent(
    selection: WorkingSelection,
    first: CalendarDay,
    second: CalendarDay,
)
    ensures
        selection.initialized_from(first).initialized_from(second)
            == selection.initialized_from(first),
{
}

/// `select_date` followed by `commit_to` writes exactly the selected date,
/// whatever the selection held before.
pub proof fn lemma_select_then_commit(selection: WorkingSelection, year: i32, month: u32, day: u32)
    ensures
        selection.selected(year, month, day).committed() == (CalendarDay { year, month, day }),
{
}

} // verus!
