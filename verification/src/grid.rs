//! The grid of weeks shown for a month: complete rows from Monday to Sunday,
//! filled up with the last days of the month before and the first days of the
//! month after.

use crate::calendar::{days_in_month, last_day_of_month, roll_month, rolled_month, CalendarDay, Ymd};
use crate::weekdays::{
    iso_week_number, iso_week_of, weekday_from_monday, weekday_of, MAX_YEAR, MIN_YEAR,
};
use vstd::prelude::*;

verus! {

/// One row of the grid: seven consecutive days from Monday to Sunday, and the
/// ISO 8601 week number that they share.
#[derive(Clone, Copy, Debug, PartialEq, Eq)]
pub struct Week {
    pub week_number: u32,
    pub days: [CalendarDay; 7],
}

/// The number of rows that hold a month whose first day has the weekday
/// `first_weekday` (0 for Monday to 6 for Sunday).
pub open spec fn row_count(year: int, month: int, first_weekday: int) -> int {
    (first_weekday + days_in_month(year, month) + 6) / 7
}

/// The date in cell `k` of the grid, counted from 0 row by row. The first of
/// the month stands in cell `first_weekday`; the cells before it hold the last
/// days of the month before, the cells after the month's last day hold the
/// first days of the month after.
pub open spec fn grid_day(year: int, month: int, first_weekday: int, k: int) -> Ymd {
    let offset = k - first_weekday;
    let last = days_in_month(year, month);
    if offset < 0 {
        let (y, m) = rolled_month(year, month, -1);
        Ymd { year: y, month: m, day: days_in_month(y, m) + 1 + offset }
    } else if offset < last {
        Ymd { year, month, day: offset + 1 }
    } else {
        let (y, m) = rolled_month(year, month, 1);
        Ymd { year: y, month: m, day: offset - last + 1 }
    }
}

/// The day of the month by which row `row` gets its week number: the first
/// day of the row that lies in the month.
pub open spec fn anchor_day(first_weekday: int, row: int) -> int {
    if row == 0 {
        1
    } else {
        7 * row + 1 - first_weekday
    }
}

/// The date in cell `k` of a sequence of rows.
pub open spec fn cell(weeks: Seq<Week>, k: int) -> Ymd {
    weeks[k / 7].days@[k % 7]@
}

/// The rows are the grid of the month: as many as the month needs, every cell
/// holding the date that `grid_day` gives.
pub open spec fn is_month_grid(weeks: Seq<Week>, year: int, month: int, first_weekday: int) -> bool {
    &&& weeks.len() == row_count(year, month, first_weekday)
    &&& forall|k: int|
        0 <= k < 7 * weeks.len() ==>
            #[trigger] cell(weeks, k) == grid_day(year, month, first_weekday, k)
}

/// Every cell but the first holds the day after the date in the cell before.
pub open spec fn consecutive(weeks: Seq<Week>) -> bool {
    forall|k: int|
        0 <= k && k + 1 < 7 * weeks.len() ==>
            cell(weeks, k + 1) == (#[trigger] cell(weeks, k)).next()
}

/// Dates grow from cell to cell, so that none stands twice.
pub open spec fn ascending(weeks: Seq<Week>) -> bool {
    forall|i: int, j: int|
        0 <= i < j < 7 * weeks.len() ==>
            (#[trigger] cell(weeks, i)).precedes(#[trigger] cell(weeks, j))
}

/// The date stands in some cell.
pub open spec fn shows(weeks: Seq<Week>, date: Ymd) -> bool {
    exists|k: int| 0 <= k < 7 * weeks.len() && #[trigger] cell(weeks, k) == date
}

/// Every day of the month stands in some cell.
pub open spec fn covers_month(weeks: Seq<Week>, year: int, month: int) -> bool {
    forall|day: int|
        1 <= day <= days_in_month(year, month) ==>
            #[trigger] shows(weeks, Ymd { year, month, day })
}

/// A date lies in the given month, or in the month before or after it.
pub open spec fn in_or_beside_month(date: Ymd, year: int, month: int) -> bool {
    ||| (date.year, date.month) == (year, month)
    ||| (date.year, date.month) == rolled_month(year, month, -1)
    ||| (date.year, date.month) == rolled_month(year, month, 1)
}

/// Every cell holds a date that exists, of the month or of a month next to it.
pub open spec fn fills_from_neighbours(weeks: Seq<Week>, year: int, month: int) -> bool {
    forall|k: int|
        0 <= k < 7 * weeks.len() ==>
            (#[trigger] cell(weeks, k)).is_date() && in_or_beside_month(cell(weeks, k), year, month)
}

/// A month takes four to six rows, whatever weekday it starts on.
pub proof fn lemma_row_count(year: int, month: int, first_weekday: int)
    requires
        1 <= month <= 12,
        0 <= first_weekday <= 6,
    ensures
        4 <= row_count(year, month, first_weekday) <= 6,
        7 * row_count(year, month, first_weekday) >= first_weekday + days_in_month(year, month),
        7 * row_count(year, month, first_weekday) < first_weekday + days_in_month(year, month) + 7,
{
}

/// Every cell of the grid holds a date that exists, in the month or in a
/// month next to it.
pub proof fn lemma_grid_day_exists(year: int, month: int, first_weekday: int, k: int)
    requires
        1 <= month <= 12,
        0 <= first_weekday <= 6,
        0 <= k < 7 * row_count(year, month, first_weekday),
    ensures
        grid_day(year, month, first_weekday, k).is_date(),
        in_or_beside_month(grid_day(year, month, first_weekday, k), year, month),
{
    lemma_row_count(year, month, first_weekday);
}

/// Each cell of the grid holds the day after the date in the cell before it.
pub proof fn lemma_grid_consecutive(year: int, month: int, first_weekday: int, k: int)
    requires
        1 <= month <= 12,
        0 <= first_weekday <= 6,
        0 <= k,
        k + 1 < 7 * row_count(year, month, first_weekday),
    ensures
        grid_day(year, month, first_weekday, k + 1) == grid_day(year, month, first_weekday, k).next(),
{
    lemma_row_count(year, month, first_weekday);
}

/// A cell of the grid holds an earlier date than every cell after it.
pub proof fn lemma_grid_ascending(year: int, month: int, first_weekday: int, i: int, j: int)
    requires
        1 <= month <= 12,
        0 <= first_weekday <= 6,
        0 <= i < j < 7 * row_count(year, month, first_weekday),
    ensures
        grid_day(year, month, first_weekday, i).precedes(grid_day(year, month, first_weekday, j)),
{
    lemma_row_count(year, month, first_weekday);
}

/// Day `day` of the month stands in cell `first_weekday + day - 1`.
pub proof fn lemma_grid_holds_month(year: int, month: int, first_weekday: int, day: int)
    requires
        1 <= month <= 12,
        0 <= first_weekday <= 6,
        1 <= day <= days_in_month(year, month),
    ensures
        0 <= first_weekday + day - 1 < 7 * row_count(year, month, first_weekday),
        grid_day(year, month, first_weekday, first_weekday + day - 1) == (Ymd { year, month, day }),
{
    lemma_row_count(year, month, first_weekday);
}

/// The grid of a month is made of four to six rows of consecutive, growing
/// dates; it holds every day of the month, and besides them only days of the
/// months next to it.
pub proof fn lemma_month_grid(weeks: Seq<Week>, year: int, month: int, first_weekday: int)
    requires
        1 <= month <= 12,
        0 <= first_weekday <= 6,
        is_month_grid(weeks, year, month, first_weekday),
    ensures
        4 <= weeks.len() <= 6,
        consecutive(weeks),
        ascending(weeks),
        covers_month(weeks, year, month),
        fills_from_neighbours(weeks, year, month),
{
    lemma_row_count(year, month, first_weekday);
    assert forall|k: int| 0 <= k && k + 1 < 7 * weeks.len() implies
        cell(weeks, k + 1) == (#[trigger] cell(weeks, k)).next()
    by {
        lemma_grid_consecutive(year, month, first_weekday, k);
    }
    assert forall|i: int, j: int| 0 <= i < j < 7 * weeks.len() implies
        (#[trigger] cell(weeks, i)).precedes(#[trigger] cell(weeks, j))
    by {
        lemma_grid_ascending(year, month, first_weekday, i, j);
    }
    assert forall|day: int| 1 <= day <= days_in_month(year, month) implies
        #[trigger] shows(weeks, Ymd { year, month, day })
    by {
        lemma_grid_holds_month(year, month, first_weekday, day);
        assert(cell(weeks, first_weekday + day - 1) == (Ymd { year, month, day }));
    }
    assert forall|k: int| 0 <= k < 7 * weeks.len() implies
        (#[trigger] cell(weeks, k)).is_date() && in_or_beside_month(cell(weeks, k), year, month)
    by {
        lemma_grid_day_exists(year, month, first_weekday, k);
    }
}

/// The number of rows of the grid of a month whose first day has the weekday
/// `first_weekday`.
pub fn rows_needed(year: i32, month: u32, first_weekday: u32) -> (rows: u32)
    requires
        1 <= month <= 12,
        first_weekday <= 6,
    ensures
        rows == row_count(year as int, month as int, first_weekday as int),
        4 <= rows <= 6,
{
    (first_weekday + last_day_of_month(year, month) + 6) / 7
}

/// The date in cell `k` of the grid.
fn grid_cell(year: i32, month: u32, first_weekday: u32, k: u32) -> (date: CalendarDay)
    requires
        1 <= month <= 12,
        first_weekday <= 6,
        k < 7 * row_count(year as int, month as int, first_weekday as int),
        grid_day(year as int, month as int, first_weekday as int, k as int).representable(),
    ensures
        date@ == grid_day(year as int, month as int, first_weekday as int, k as int),
        date.well_formed(),
{
    proof {
        lemma_grid_day_exists(year as int, month as int, first_weekday as int, k as int);
    }
    let last = last_day_of_month(year, month);
    if k < first_weekday {
        let (y, m) = roll_month(year, month, -1);
        CalendarDay { year: y, month: m, day: last_day_of_month(y, m) + 1 + k - first_weekday }
    } else if k - first_weekday < last {
        CalendarDay { year, month, day: k - first_weekday + 1 }
    } else {
        let (y, m) = roll_month(year, month, 1);
        CalendarDay { year: y, month: m, day: k - first_weekday - last + 1 }
    }
}

/// The seven days of row `row` of the grid of a month whose first day has the
/// weekday `first_weekday`.
pub fn grid_row(year: i32, month: u32, first_weekday: u32, row: u32) -> (days: [CalendarDay; 7])
    requires
        1 <= month <= 12,
        first_weekday <= 6,
        row < row_count(year as int, month as int, first_weekday as int),
        grid_day(year as int, month as int, first_weekday as int, 7 * row).representable(),
        grid_day(year as int, month as int, first_weekday as int, 7 * row + 6).representable(),
    ensures
        forall|c: int|
            0 <= c < 7 ==> days@[c].well_formed() && (#[trigger] days@[c])@ == grid_day(
                year as int,
                month as int,
                first_weekday as int,
                7 * row + c,
            ),
{
    proof {
        lemma_row_count(year as int, month as int, first_weekday as int);
    }
    let k: u32 = 7 * row;
    [
        grid_cell(year, month, first_weekday, k),
        grid_cell(year, month, first_weekday, k + 1),
        grid_cell(year, month, first_weekday, k + 2),
        grid_cell(year, month, first_weekday, k + 3),
        grid_cell(year, month, first_weekday, k + 4),
        grid_cell(year, month, first_weekday, k + 5),
        grid_cell(year, month, first_weekday, k + 6),
    ]
}

/// The grid of weeks of a month. The weekday of the first of the month and
/// the week numbers are chrono's; the rows are laid out by `grid_row`.
pub fn build(year: i32, month: u32) -> (weeks: Vec<Week>)
    requires
        1 <= month <= 12,
        MIN_YEAR <= year <= MAX_YEAR,
    ensures
        is_month_grid(
            weeks@,
            year as int,
            month as int,
            weekday_from_monday(year as int, month as int, 1),
        ),
        forall|row: int|
            0 <= row < weeks.len() ==> 1 <= (#[trigger] weeks[row]).week_number <= 53
                && weeks[row].week_number == iso_week_number(
                year as int,
                month as int,
                anchor_day(weekday_from_monday(year as int, month as int, 1), row),
            ),
        4 <= weeks.len() <= 6,
        consecutive(weeks@),
        ascending(weeks@),
        covers_month(weeks@, year as int, month as int),
        fills_from_neighbours(weeks@, year as int, month as int),
{
    let first_weekday = weekday_of(year, month, 1).unwrap();
    let rows = rows_needed(year, month, first_weekday);
    let mut weeks: Vec<Week> = Vec::new();
    let mut row: u32 = 0;
    while row < rows
        invariant
            1 <= month <= 12,
            MIN_YEAR <= year <= MAX_YEAR,
            first_weekday == weekday_from_monday(year as int, month as int, 1),
            first_weekday <= 6,
            rows == row_count(year as int, month as int, first_weekday as int),
            4 <= rows <= 6,
            row <= rows,
            weeks.len() == row,
            forall|k: int|
                0 <= k < 7 * row ==> #[trigger] cell(weeks@, k) == grid_day(
                    year as int,
                    month as int,
                    first_weekday as int,
                    k,
                ),
            forall|r: int|
                0 <= r < row ==> 1 <= (#[trigger] weeks[r]).week_number <= 53
                    && weeks[r].week_number == iso_week_number(
                    year as int,
                    month as int,
                    anchor_day(first_weekday as int, r),
                ),
        decreases rows - row,
    {
        proof {
            lemma_row_count(year as int, month as int, first_weekday as int);
            lemma_grid_day_exists(year as int, month as int, first_weekday as int, 7 * row);
            lemma_grid_day_exists(year as int, month as int, first_weekday as int, 7 * row + 6);
        }
        let days = grid_row(year, month, first_weekday, row);
        let anchor: u32 = if row == 0 {
            1
        } else {
            7 * row + 1 - first_weekday
        };
        let week_number = iso_week_of(year, month, anchor).unwrap();
        let ghost before = weeks@;
        weeks.push(Week { week_number, days });
        proof {
            assert forall|k: int| 0 <= k < 7 * (row + 1) implies
                #[trigger] cell(weeks@, k) == grid_day(
                    year as int,
                    month as int,
                    first_weekday as int,
                    k,
                )
            by {
                if k < 7 * row {
                    assert(weeks@[k / 7] == before[k / 7]);
                    assert(cell(before, k) == grid_day(
                        year as int,
                        month as int,
                        first_weekday as int,
                        k,
                    ));
                } else {
                    assert(k / 7 == row);
                    assert(weeks@[k / 7].days == days);
                    assert(days@[k % 7]@ == grid_day(
                        year as int,
                        month as int,
                        first_weekday as int,
                        7 * row + k % 7,
                    ));
                }
            }
        }
        row = row + 1;
    }
    proof {
        lemma_month_grid(weeks@, year as int, month as int, first_weekday as int);
    }
    weeks
}

} // verus!
