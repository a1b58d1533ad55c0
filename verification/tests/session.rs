use datepicker::calendar::CalendarDay;
use datepicker::selection::WorkingSelection;
use datepicker::session::{DayMarks, PickerAction, PickerEvent};

fn date(year: i32, month: u32, day: u32) -> CalendarDay {
    CalendarDay { year, month, day }
}

fn held(year: i32, month: u32, day: u32) -> WorkingSelection {
    WorkingSelection { year, month, day, initialized: true }
}

#[test]
fn resume_without_a_stored_selection_takes_the_bound_date() {
    let selection = WorkingSelection::resume(None, &date(2023, 5, 17));
    assert_eq!(selection, held(2023, 5, 17));
}

#[test]
fn resume_keeps_a_stored_selection() {
    let selection = WorkingSelection::resume(Some(held(2022, 2, 2)), &date(2023, 5, 17));
    assert_eq!(selection, held(2022, 2, 2));
}

#[test]
fn resume_after_a_reset_takes_the_bound_date_again() {
    let mut stored = held(2022, 2, 2);
    stored.reset();
    let selection = WorkingSelection::resume(Some(stored), &date(2023, 5, 17));
    assert_eq!(selection, held(2023, 5, 17));
}

#[test]
fn handle_applies_each_edit() {
    let mut bound = date(2000, 1, 1);
    let mut selection = held(2024, 1, 31);
    assert_eq!(selection.handle(PickerEvent::StepMonth(1), &mut bound), PickerAction::Keep);
    assert_eq!(selection, held(2024, 2, 29));
    assert_eq!(selection.handle(PickerEvent::StepYear(1), &mut bound), PickerAction::Keep);
    assert_eq!(selection, held(2025, 2, 28));
    assert_eq!(selection.handle(PickerEvent::StepDay(1), &mut bound), PickerAction::Keep);
    assert_eq!(selection, held(2025, 3, 1));
    assert_eq!(selection.handle(PickerEvent::StepDay(-1), &mut bound), PickerAction::Keep);
    assert_eq!(selection, held(2025, 2, 28));
    assert_eq!(selection.handle(PickerEvent::SetMonth(12), &mut bound), PickerAction::Keep);
    assert_eq!(selection, held(2025, 12, 28));
    assert_eq!(selection.handle(PickerEvent::SetDay(31), &mut bound), PickerAction::Keep);
    assert_eq!(selection, held(2025, 12, 31));
    assert_eq!(selection.handle(PickerEvent::StepDay(1), &mut bound), PickerAction::Keep);
    assert_eq!(selection, held(2026, 1, 1));
    assert_eq!(selection.handle(PickerEvent::StepMonth(-1), &mut bound), PickerAction::Keep);
    assert_eq!(selection, held(2025, 12, 1));
    assert_eq!(selection.handle(PickerEvent::StepYear(-1), &mut bound), PickerAction::Keep);
    assert_eq!(selection, held(2024, 12, 1));
    assert_eq!(selection.handle(PickerEvent::SetYear(1999), &mut bound), PickerAction::Keep);
    assert_eq!(selection, held(1999, 12, 1));
    let picked = PickerEvent::Select(date(2024, 2, 29));
    assert_eq!(selection.handle(picked, &mut bound), PickerAction::Keep);
    assert_eq!(selection, held(2024, 2, 29));
    assert_eq!(selection.handle(PickerEvent::SetYear(2023), &mut bound), PickerAction::Keep);
    assert_eq!(selection, held(2023, 2, 28));
    assert_eq!(bound, date(2000, 1, 1));
}

#[test]
fn save_writes_the_bound_date_and_closes() {
    let mut bound = date(2000, 1, 1);
    let mut selection = held(2024, 2, 29);
    assert_eq!(selection.handle(PickerEvent::Save, &mut bound), PickerAction::Close);
    assert_eq!(bound, date(2024, 2, 29));
    assert!(!selection.initialized);
}

#[test]
fn cancel_closes_and_writes_nothing() {
    let mut bound = date(2000, 1, 1);
    let mut selection = held(2024, 2, 29);
    assert_eq!(selection.handle(PickerEvent::Cancel, &mut bound), PickerAction::Close);
    assert_eq!(bound, date(2000, 1, 1));
    assert!(!selection.initialized);
}

#[test]
fn a_session_after_cancel_starts_from_the_bound_date() {
    let mut bound = date(2000, 1, 1);
    let mut selection = WorkingSelection::resume(None, &bound);
    selection.handle(PickerEvent::StepYear(1), &mut bound);
    selection.handle(PickerEvent::Cancel, &mut bound);
    let again = WorkingSelection::resume(Some(selection), &bound);
    assert_eq!(again, held(2000, 1, 1));
}

#[test]
fn accepts_edits_that_exist() {
    let selection = held(2023, 2, 28);
    assert!(selection.accepts(&PickerEvent::SetYear(-5)));
    assert!(selection.accepts(&PickerEvent::SetMonth(1)));
    assert!(selection.accepts(&PickerEvent::SetMonth(12)));
    assert!(selection.accepts(&PickerEvent::SetDay(1)));
    assert!(selection.accepts(&PickerEvent::SetDay(28)));
    assert!(selection.accepts(&PickerEvent::StepYear(1)));
    assert!(selection.accepts(&PickerEvent::StepMonth(-1)));
    assert!(selection.accepts(&PickerEvent::StepDay(1)));
    assert!(selection.accepts(&PickerEvent::Select(date(2024, 2, 29))));
    assert!(selection.accepts(&PickerEvent::Save));
    assert!(selection.accepts(&PickerEvent::Cancel));
}

#[test]
fn accepts_refuses_what_does_not_exist() {
    let selection = held(2023, 2, 28);
    assert!(!selection.accepts(&PickerEvent::SetMonth(0)));
    assert!(!selection.accepts(&PickerEvent::SetMonth(13)));
    assert!(!selection.accepts(&PickerEvent::SetDay(0)));
    assert!(!selection.accepts(&PickerEvent::SetDay(29)));
    assert!(!selection.accepts(&PickerEvent::StepYear(0)));
    assert!(!selection.accepts(&PickerEvent::StepMonth(2)));
    assert!(!selection.accepts(&PickerEvent::StepDay(-2)));
    assert!(!selection.accepts(&PickerEvent::Select(date(2023, 2, 29))));
}

#[test]
fn accepts_refuses_everything_on_a_selection_without_a_date() {
    let fresh = WorkingSelection::default();
    assert!(!fresh.accepts(&PickerEvent::SetYear(2023)));
    assert!(!fresh.accepts(&PickerEvent::StepDay(1)));
    assert!(!fresh.accepts(&PickerEvent::Select(date(2023, 1, 1))));
    assert!(!fresh.accepts(&PickerEvent::Save));
    assert!(!fresh.accepts(&PickerEvent::Cancel));
}

#[test]
fn accepts_refuses_steps_out_of_the_year_range() {
    let high = held(i32::MAX, 12, 31);
    assert!(!high.accepts(&PickerEvent::StepYear(1)));
    assert!(!high.accepts(&PickerEvent::StepMonth(1)));
    assert!(!high.accepts(&PickerEvent::StepDay(1)));
    assert!(high.accepts(&PickerEvent::StepYear(-1)));
    assert!(high.accepts(&PickerEvent::StepMonth(-1)));
    assert!(high.accepts(&PickerEvent::StepDay(-1)));
    let low = held(i32::MIN, 1, 1);
    assert!(!low.accepts(&PickerEvent::StepYear(-1)));
    assert!(!low.accepts(&PickerEvent::StepMonth(-1)));
    assert!(!low.accepts(&PickerEvent::StepDay(-1)));
    assert!(low.accepts(&PickerEvent::StepDay(1)));
    assert!(held(i32::MAX, 12, 30).accepts(&PickerEvent::StepDay(1)));
    assert!(held(i32::MAX, 11, 30).accepts(&PickerEvent::StepMonth(1)));
}

#[test]
fn marks_of_the_selected_day() {
    let selection = held(2024, 2, 29);
    let marks = selection.marks(&date(2024, 2, 29), 3, &date(2024, 2, 1));
    assert_eq!(marks, DayMarks { selected: true, weekend: false, in_month: true, today: false });
}

#[test]
fn marks_of_today_on_a_weekend() {
    let selection = held(2024, 2, 29);
    let saturday = selection.marks(&date(2024, 2, 3), 5, &date(2024, 2, 3));
    assert_eq!(saturday, DayMarks { selected: false, weekend: true, in_month: true, today: true });
    let sunday = selection.marks(&date(2024, 2, 4), 6, &date(2024, 2, 3));
    assert_eq!(sunday, DayMarks { selected: false, weekend: true, in_month: true, today: false });
}

#[test]
fn marks_of_a_day_of_another_month() {
    let selection = held(2024, 2, 29);
    let marks = selection.marks(&date(2024, 1, 29), 0, &date(2024, 2, 3));
    assert_eq!(marks, DayMarks { selected: false, weekend: false, in_month: false, today: false });
    let same_day_other_year = selection.marks(&date(2023, 2, 28), 1, &date(2024, 2, 3));
    assert!(!same_day_other_year.selected);
}
