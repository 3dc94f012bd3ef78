//! Errors raised when a month or weekday number is out of range.

use vstd::prelude::*;
use crate::text::{decimal, decimal_string};

verus! {

/// A calendar value that does not name a month or a weekday.
#[derive(Debug, Clone, Copy, PartialEq, Eq, Structural)]
pub enum CalError {
    /// Not in `1..=12`.
    InvalidMonth(u8),
    /// Not in `0..=6`.
    InvalidWeekday(u8),
}

pub type CalResult<T> = Result<T, CalError>;

impl CalError {
    pub open spec fn spec_message(self) -> Seq<char> {
        match self {
            CalError::InvalidMonth(v) => "invalid month: "@ + decimal(v as nat),
            CalError::InvalidWeekday(v) => "invalid weekday: "@ + decimal(v as nat),
        }
    }

    /// A message that names the offending value, e.g. `invalid month: 13`.
    pub fn message(&self) -> (r: String)
        ensures
            r@ == self.spec_message(),
    {
        match self {
            CalError::InvalidMonth(v) => {
                let digits = decimal_string(*v as u32);
                String::from_str("invalid month: ").concat(digits.as_str())
            },
            CalError::InvalidWeekday(v) => {
                let digits = decimal_string(*v as u32);
                String::from_str("invalid weekday: ").concat(digits.as_str())
            },
        }
    }
}

} // verus!
