//! How command-line choices become a month count, a layout and a first weekday.

use vstd::prelude::*;

verus! {

/// The months to show, from the layout choices by precedence: a single month,
/// then three months spanning the date, then the whole year, then `months`
/// months (at least one, spanning when `span`), then the whole year when a
/// year but no month was given, else a single month. The result is the month
/// count, whether it spans the date, and whether it is a whole-year layout.
pub open spec fn spec_choose_layout(
    one: bool,
    three: bool,
    whole_year: bool,
    months: Option<u32>,
    span: bool,
    year_given: bool,
    month_given: bool,
) -> (u32, bool, bool) {
    if one {
        (1, false, false)
    } else if three {
        (3, true, false)
    } else if whole_year {
        (12, false, true)
    } else if months is Some {
        (if months->0 >= 1 { months->0 } else { 1 }, span, false)
    } else if year_given && !month_given {
        (12, false, true)
    } else {
        (1, false, false)
    }
}

/// See `spec_choose_layout`.
pub fn choose_layout(
    one: bool,
    three: bool,
    whole_year: bool,
    months: Option<u32>,
    span: bool,
    year_given: bool,
    month_given: bool,
) -> (r: (u32, bool, bool))
    ensures
        r == spec_choose_layout(one, three, whole_year, months, span, year_given, month_given),
{
    if one {
        (1, false, false)
    } else if three {
        (3, true, false)
    } else if whole_year {
        (12, false, true)
    } else if let Some(n) = months {
        (if n >= 1 { n } else { 1 }, span, false)
    } else if year_given && !month_given {
        (12, false, true)
    } else {
        (1, false, false)
    }
}

/// The first weekday's index (Sunday = 0): Monday when asked for, else the
/// given index, else Sunday.
pub fn choose_first_weekday(monday: bool, first: Option<u8>) -> (r: u8)
    ensures
        monday ==> r == 1,
        !monday && first is Some ==> r == first->0,
        !monday && first is None ==> r == 0,
{
    if monday {
        1
    } else {
        match first {
            Some(n) => n,
            None => 0,
        }
    }
}

/// Months side by side for a terminal of `cols` columns: three when the width
/// is unknown or at least 80, else as many 21-column blocks as fit, at least one.
pub fn default_column(cols: Option<u16>) -> (r: usize)
    ensures
        r == match cols {
            Some(c) => if c < 80 {
                if c / 21 >= 1 {
                    (c / 21) as int
                } else {
                    1
                }
            } else {
                3
            },
            None => 3,
        },
        1 <= r <= 3,
{
    match cols {
        Some(c) => {
            if c < 80 {
                let n = c as usize / 21;
                if n >= 1 {
                    n
                } else {
                    1
                }
            } else {
                3
            }
        },
        None => 3,
    }
}

} // verus!
