//! One redraw of a picker, as far as it decides anything: taking up the stored
//! selection, applying what the user did, and marking the cells of the grid.
//!
//! The bound date is written on `PickerEvent::Save` alone: edits stay in the
//! working selection until then, and `PickerEvent::Cancel` drops them.

use crate::calendar::{days_in_month, last_day_of_month, CalendarDay, Ymd};
use crate::selection::WorkingSelection;
use vstd::prelude::*;

verus! {

/// What the user did to the picker.
#[derive(Clone, Copy, Debug, PartialEq, Eq, Structural)]
pub enum PickerEvent {
    /// A year was chosen from the list of years.
    SetYear(i32),
    /// A month was chosen from the list of months.
    SetMonth(u32),
    /// A day was chosen from the list of the month's days.
    SetDay(u32),
    /// An arrow went one year back (-1) or forward (1).
    StepYear(i32),
    /// An arrow went one month back (-1) or forward (1).
    StepMonth(i32),
    /// An arrow went one day back (-1) or forward (1).
    StepDay(i32),
    /// A cell of the grid was clicked.
    Select(CalendarDay),
    /// The selection was confirmed.
    Save,
    /// The picker was dismissed.
    Cancel,
}

/// What the caller does after an event.
#[derive(Clone, Copy, Debug, PartialEq, Eq, Structural)]
pub enum PickerAction {
    /// Store the selection and keep the picker open.
    Keep,
    /// Store the selection and hide the picker.
    Close,
}

/// What a cell of the grid shows besides its day.
#[derive(Clone, Copy, Debug, PartialEq, Eq, Structural)]
pub struct DayMarks {
    /// The cell holds the selected date.
    pub selected: bool,
    /// The cell stands in the column of Saturday or of Sunday.
    pub weekend: bool,
    /// The cell holds a day of the month that the selection is in.
    pub in_month: bool,
    /// The cell holds today's date.
    pub today: bool,
}

impl PickerEvent {
    /// The event ends the session.
    pub open spec fn closes(self) -> bool {
        self is Save || self is Cancel
    }
}

impl WorkingSelection {
    /// The event can be applied: the selection holds a date, and the event
    /// asks for a month, a day or a step that exists and fits.
    pub open spec fn admits(&self, event: PickerEvent) -> bool {
        let date = self.date();
        date.is_date() && match event {
            PickerEvent::SetYear(_) => true,
            PickerEvent::SetMonth(month) => 1 <= month <= 12,
            PickerEvent::SetDay(day) => 1 <= day <= days_in_month(date.year, date.month),
            PickerEvent::StepYear(delta) => {
                (delta == 1 || delta == -1) && date.shift_year(delta as int).representable()
            },
            PickerEvent::StepMonth(delta) => {
                (delta == 1 || delta == -1) && date.shift_month(delta as int).representable()
            },
            PickerEvent::StepDay(delta) => {
                (delta == 1 || delta == -1) && date.shift_day(delta as int).representable()
            },
            PickerEvent::Select(day) => day.well_formed(),
            PickerEvent::Save => true,
            PickerEvent::Cancel => true,
        }
    }

    /// The date that the selection holds after the event.
    pub open spec fn date_after(&self, event: PickerEvent) -> Ymd {
        let date = self.date();
        match event {
            PickerEvent::SetYear(year) => (Ymd { year: year as int, ..date }).clamped(),
            PickerEvent::SetMonth(month) => (Ymd { month: month as int, ..date }).clamped(),
            PickerEvent::SetDay(day) => Ymd { day: day as int, ..date },
            PickerEvent::StepYear(delta) => date.shift_year(delta as int),
            PickerEvent::StepMonth(delta) => date.shift_month(delta as int),
            PickerEvent::StepDay(delta) => date.shift_day(delta as int),
            PickerEvent::Select(day) => day@,
            PickerEvent::Save => date,
            PickerEvent::Cancel => date,
        }
    }

    /// The marks of a cell that holds `day` in column `column` of its row
    /// (0 for Monday to 6 for Sunday), on the day `today`.
    pub open spec fn marks_of(&self, day: CalendarDay, column: int, today: CalendarDay) -> DayMarks {
        DayMarks {
            selected: day@ == self.date(),
            weekend: column == 5 || column == 6,
            in_month: day.month == self.month,
            today: day == today,
        }
    }

    /// The selection to work on in this redraw: the stored one, or a fresh
    /// one where nothing is stored, initialized from the bound date unless it
    /// was already.
    pub fn resume(
        stored: Option<WorkingSelection>,
        bound: &CalendarDay,
    ) -> (selection: WorkingSelection)
        requires
            bound.well_formed(),
            stored matches Some(s) ==> s.well_formed(),
        ensures
            selection == (match stored {
                Some(s) => s,
                None => WorkingSelection { year: 0, month: 0, day: 0, initialized: false },
            }).initialized_from(*bound),
            selection.initialized,
            selection.date().is_date(),
    {
        let mut selection = match stored {
            Some(s) => s,
            None => WorkingSelection::default(),
        };
        selection.initialize_from(bound);
        selection
    }

    /// Whether `handle` can take the event.
    pub fn accepts(&self, event: &PickerEvent) -> (ok: bool)
        ensures
            ok == self.admits(*event),
    {
        let held = CalendarDay { year: self.year, month: self.month, day: self.day };
        if !held.is_valid() {
            return false;
        }
        let last = last_day_of_month(self.year, self.month);
        match *event {
            PickerEvent::SetYear(_) => true,
            PickerEvent::SetMonth(month) => 1 <= month && month <= 12,
            PickerEvent::SetDay(day) => 1 <= day && day <= last,
            PickerEvent::StepYear(delta) => {
                (delta == 1 && self.year < i32::MAX) || (delta == -1 && self.year > i32::MIN)
            },
            PickerEvent::StepMonth(delta) => {
                (delta == 1 && (self.month < 12 || self.year < i32::MAX))
                    || (delta == -1 && (self.month > 1 || self.year > i32::MIN))
            },
            PickerEvent::StepDay(delta) => {
                (delta == 1 && (self.day < last || self.month < 12 || self.year < i32::MAX))
                    || (delta == -1 && (self.day > 1 || self.month > 1 || self.year > i32::MIN))
            },
            PickerEvent::Select(day) => day.is_valid(),
            PickerEvent::Save => true,
            PickerEvent::Cancel => true,
        }
    }

    /// Applies one event. An edit changes the selection and leaves the bound
    /// date alone. `Save` writes the selection to the bound date and ends the
    /// session; `Cancel` ends the session and writes nothing.
    pub fn handle(&mut self, event: PickerEvent, bound: &mut CalendarDay) -> (action: PickerAction)
        requires
            old(self).admits(event),
        ensures
            final(self).date() == old(self).date_after(event),
            final(self).initialized == (old(self).initialized && !event.closes()),
            final(self).date().is_date(),
            *final(bound) == (if event is Save {
                old(self).committed()
            } else {
                *old(bound)
            }),
            action == (if event.closes() {
                PickerAction::Close
            } else {
                PickerAction::Keep
            }),
    {
        match event {
            PickerEvent::SetYear(year) => {
                self.set_year(year);
                PickerAction::Keep
            },
            PickerEvent::SetMonth(month) => {
                self.set_month(month);
                PickerAction::Keep
            },
            PickerEvent::SetDay(day) => {
                self.set_day(day);
                PickerAction::Keep
            },
            PickerEvent::StepYear(delta) => {
                self.step_year(delta);
                PickerAction::Keep
            },
            PickerEvent::StepMonth(delta) => {
                self.step_month(delta);
                PickerAction::Keep
            },
            PickerEvent::StepDay(delta) => {
                self.step_day(delta);
                PickerAction::Keep
            },
            PickerEvent::Select(day) => {
                self.select_date(day.year, day.month, day.day);
                PickerAction::Keep
            },
            PickerEvent::Save => {
                self.commit_to(bound);
                self.reset();
                PickerAction::Close
            },
            PickerEvent::Cancel => {
                self.reset();
                PickerAction::Close
            },
        }
    }

    /// The marks of a cell of the grid.
    pub fn marks(&self, day: &CalendarDay, column: usize, today: &CalendarDay) -> (marks: DayMarks)
        ensures
            marks == self.marks_of(*day, column as int, *today),
    {
        DayMarks {
            selected: day.year == self.year && day.month == self.month && day.day == self.day,
            weekend: column == 5 || column == 6,
            in_month: day.month == self.month,
            today: *day == *today,
        }
    }
}

} // verus!
