//! Date-picker logic: a working selection that is edited apart from the bound
//! date, and the grid of weeks shown for a month.

pub mod calendar;
pub mod grid;
pub mod selection;
pub mod session;
pub mod weekdays;
