//! A `cal`-style calendar: date arithmetic, month blocks, month planning and
//! grid layout, each stated and proved with Verus.

pub mod text;
pub mod error;
pub mod wrapper;
pub mod range;
pub mod format;
pub mod paint;
pub mod calendar;
pub mod options;

pub use calendar::{Calendar, CalendarDate};
pub use error::{CalError, CalResult};
pub use format::CalFormat;
pub use range::{CalRange, MonthIter, MonthOfYear};
pub use wrapper::{Month, Weekday, Year};
