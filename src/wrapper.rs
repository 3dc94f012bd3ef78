//! Years, months and weekdays as checked value types.

use vstd::prelude::*;
use crate::error::{CalError, CalResult};
use crate::text::{decimal, decimal_string};

verus! {

/// The proleptic Gregorian leap-year rule.
pub open spec fn is_leap(y: int) -> bool {
    if y % 400 == 0 {
        true
    } else if y % 100 == 0 {
        false
    } else {
        y % 4 == 0
    }
}

/// A year of the proleptic Gregorian calendar.
#[derive(Debug, Clone, Copy, PartialEq, Eq, Structural)]
pub struct Year(pub u32);

impl Year {
    /// The year before.
    pub fn pred(&self) -> (r: Self)
        requires
            self.0 > 0,
        ensures
            r.0 == self.0 - 1,
    {
        Year(self.0 - 1)
    }

    /// The year after.
    pub fn succ(&self) -> (r: Self)
        requires
            self.0 < u32::MAX,
        ensures
            r.0 == self.0 + 1,
    {
        Year(self.0 + 1)
    }

    pub fn is_leap_year(&self) -> (r: bool)
        ensures
            r == is_leap(self.0 as int),
    {
        if self.0 % 400 == 0 {
            true
        } else if self.0 % 100 == 0 {
            false
        } else {
            self.0 % 4 == 0
        }
    }

    /// The year in decimal, e.g. `2022`.
    pub fn to_string(&self) -> (r: String)
        ensures
            r@ == decimal(self.0 as nat),
    {
        decimal_string(self.0)
    }
}

impl From<u32> for Year {
    fn from(value: u32) -> (r: Self)
        ensures
            r.0 == value,
    {
        Year(value)
    }
}

impl vstd::std_specs::convert::FromSpecImpl<u32> for Year {
    open spec fn obeys_from_spec() -> bool {
        true
    }

    open spec fn from_spec(v: u32) -> Year {
        Year(v)
    }
}

impl From<Year> for u32 {
    fn from(year: Year) -> (r: Self)
        ensures
            r == year.0,
    {
        year.0
    }
}

impl vstd::std_specs::convert::FromSpecImpl<Year> for u32 {
    open spec fn obeys_from_spec() -> bool {
        true
    }

    open spec fn from_spec(v: Year) -> u32 {
        v.0
    }
}

/// A month of the year, January first.
#[derive(Debug, Clone, Copy, PartialEq, Eq, Structural)]
pub enum Month {
    January,
    February,
    March,
    April,
    May,
    June,
    July,
    August,
    September,
    October,
    November,
    December,
}

/// The month with number `n` in `1..=12`.
pub open spec fn month_of(n: int) -> Month {
    if n == 1 {
        Month::January
    } else if n == 2 {
        Month::February
    } else if n == 3 {
        Month::March
    } else if n == 4 {
        Month::April
    } else if n == 5 {
        Month::May
    } else if n == 6 {
        Month::June
    } else if n == 7 {
        Month::July
    } else if n == 8 {
        Month::August
    } else if n == 9 {
        Month::September
    } else if n == 10 {
        Month::October
    } else if n == 11 {
        Month::November
    } else {
        Month::December
    }
}

/// The English name of month number `n`.
pub open spec fn month_name(n: int) -> Seq<char> {
    if n == 1 {
        "January"@
    } else if n == 2 {
        "February"@
    } else if n == 3 {
        "March"@
    } else if n == 4 {
        "April"@
    } else if n == 5 {
        "May"@
    } else if n == 6 {
        "June"@
    } else if n == 7 {
        "July"@
    } else if n == 8 {
        "August"@
    } else if n == 9 {
        "September"@
    } else if n == 10 {
        "October"@
    } else if n == 11 {
        "November"@
    } else {
        "December"@
    }
}

impl Month {
    /// The month's number: January is 1, December 12.
    pub open spec fn num(self) -> int {
        match self {
            Month::January => 1,
            Month::February => 2,
            Month::March => 3,
            Month::April => 4,
            Month::May => 5,
            Month::June => 6,
            Month::July => 7,
            Month::August => 8,
            Month::September => 9,
            Month::October => 10,
            Month::November => 11,
            Month::December => 12,
        }
    }

    pub fn number(&self) -> (r: u8)
        ensures
            r == self.num(),
            1 <= r <= 12,
    {
        match self {
            Month::January => 1,
            Month::February => 2,
            Month::March => 3,
            Month::April => 4,
            Month::May => 5,
            Month::June => 6,
            Month::July => 7,
            Month::August => 8,
            Month::September => 9,
            Month::October => 10,
            Month::November => 11,
            Month::December => 12,
        }
    }

    /// The month with number `n`, or `InvalidMonth(n)` outside `1..=12`.
    pub fn from_number(n: u8) -> (r: CalResult<Month>)
        ensures
            1 <= n <= 12 ==> r == Ok::<Month, CalError>(month_of(n as int)),
            !(1 <= n <= 12) ==> r == Err::<Month, CalError>(CalError::InvalidMonth(n)),
    {
        match n {
            1 => Ok(Month::January),
            2 => Ok(Month::February),
            3 => Ok(Month::March),
            4 => Ok(Month::April),
            5 => Ok(Month::May),
            6 => Ok(Month::June),
            7 => Ok(Month::July),
            8 => Ok(Month::August),
            9 => Ok(Month::September),
            10 => Ok(Month::October),
            11 => Ok(Month::November),
            12 => Ok(Month::December),
            _ => Err(CalError::InvalidMonth(n)),
        }
    }

    /// The month before, December before January.
    pub fn pred(&self) -> (r: Self)
        ensures
            r.num() == if self.num() == 1 { 12 } else { self.num() - 1 },
    {
        match self {
            Month::January => Month::December,
            Month::February => Month::January,
            Month::March => Month::February,
            Month::April => Month::March,
            Month::May => Month::April,
            Month::June => Month::May,
            Month::July => Month::June,
            Month::August => Month::July,
            Month::September => Month::August,
            Month::October => Month::September,
            Month::November => Month::October,
            Month::December => Month::November,
        }
    }

    /// The month after, January after December.
    pub fn succ(&self) -> (r: Self)
        ensures
            r.num() == if self.num() == 12 { 1 } else { self.num() + 1 },
    {
        match self {
            Month::January => Month::February,
            Month::February => Month::March,
            Month::March => Month::April,
            Month::April => Month::May,
            Month::May => Month::June,
            Month::June => Month::July,
            Month::July => Month::August,
            Month::August => Month::September,
            Month::September => Month::October,
            Month::October => Month::November,
            Month::November => Month::December,
            Month::December => Month::January,
        }
    }

    /// The month's English name, e.g. `January`.
    pub fn to_string(&self) -> (r: String)
        ensures
            r@ == month_name(self.num()),
    {
        let name = match self {
            Month::January => "January",
            Month::February => "February",
            Month::March => "March",
            Month::April => "April",
            Month::May => "May",
            Month::June => "June",
            Month::July => "July",
            Month::August => "August",
            Month::September => "September",
            Month::October => "October",
            Month::November => "November",
            Month::December => "December",
        };
        String::from_str(name)
    }
}

impl TryFrom<u8> for Month {
    type Error = CalError;

    fn try_from(value: u8) -> (r: CalResult<Self>)
        ensures
            r == Self::spec_try_from(value),
    {
        Month::from_number(value)
    }
}

impl Month {
    pub open spec fn spec_try_from(v: u8) -> CalResult<Month> {
        if 1 <= v <= 12 {
            Ok(month_of(v as int))
        } else {
            Err(CalError::InvalidMonth(v))
        }
    }
}

impl vstd::std_specs::convert::TryFromSpecImpl<u8> for Month {
    open spec fn obeys_try_from_spec() -> bool {
        true
    }

    open spec fn try_from_spec(v: u8) -> CalResult<Month> {
        Month::spec_try_from(v)
    }
}

/// A day of the week, Sunday first.
#[derive(Debug, Clone, Copy, PartialEq, Eq, Structural)]
pub enum Weekday {
    Sunday,
    Monday,
    Tuesday,
    Wednesday,
    Thursday,
    Friday,
    Saturday,
}

/// The weekday with index `i` in `0..7`, Sunday being 0.
pub open spec fn weekday_of(i: int) -> Weekday {
    if i == 0 {
        Weekday::Sunday
    } else if i == 1 {
        Weekday::Monday
    } else if i == 2 {
        Weekday::Tuesday
    } else if i == 3 {
        Weekday::Wednesday
    } else if i == 4 {
        Weekday::Thursday
    } else if i == 5 {
        Weekday::Friday
    } else {
        Weekday::Saturday
    }
}

/// The two-letter label of the weekday with index `i`.
pub open spec fn weekday_abbrev(i: int) -> Seq<char> {
    if i == 0 {
        seq!['S', 'u']
    } else if i == 1 {
        seq!['M', 'o']
    } else if i == 2 {
        seq!['T', 'u']
    } else if i == 3 {
        seq!['W', 'e']
    } else if i == 4 {
        seq!['T', 'h']
    } else if i == 5 {
        seq!['F', 'r']
    } else {
        seq!['S', 'a']
    }
}

impl Weekday {
    /// The weekday's index: Sunday is 0, Saturday 6.
    pub open spec fn idx(self) -> int {
        match self {
            Weekday::Sunday => 0,
            Weekday::Monday => 1,
            Weekday::Tuesday => 2,
            Weekday::Wednesday => 3,
            Weekday::Thursday => 4,
            Weekday::Friday => 5,
            Weekday::Saturday => 6,
        }
    }

    pub fn index(&self) -> (r: u8)
        ensures
            r == self.idx(),
            r < 7,
    {
        match self {
            Weekday::Sunday => 0,
            Weekday::Monday => 1,
            Weekday::Tuesday => 2,
            Weekday::Wednesday => 3,
            Weekday::Thursday => 4,
            Weekday::Friday => 5,
            Weekday::Saturday => 6,
        }
    }

    /// The weekday with index `i`, or `InvalidWeekday(i)` outside `0..=6`.
    pub fn from_index(i: u8) -> (r: CalResult<Weekday>)
        ensures
            i < 7 ==> r == Ok::<Weekday, CalError>(weekday_of(i as int)),
            i >= 7 ==> r == Err::<Weekday, CalError>(CalError::InvalidWeekday(i)),
    {
        match i {
            0 => Ok(Weekday::Sunday),
            1 => Ok(Weekday::Monday),
            2 => Ok(Weekday::Tuesday),
            3 => Ok(Weekday::Wednesday),
            4 => Ok(Weekday::Thursday),
            5 => Ok(Weekday::Friday),
            6 => Ok(Weekday::Saturday),
            _ => Err(CalError::InvalidWeekday(i)),
        }
    }

    /// The two-letter label, e.g. `Su`.
    pub fn abbrev(&self) -> (r: &'static str)
        ensures
            r@ == weekday_abbrev(self.idx()),
    {
        proof {
            reveal_strlit("Su");
            reveal_strlit("Mo");
            reveal_strlit("Tu");
            reveal_strlit("We");
            reveal_strlit("Th");
            reveal_strlit("Fr");
            reveal_strlit("Sa");
        }
        let r = match self {
            Weekday::Sunday => "Su",
            Weekday::Monday => "Mo",
            Weekday::Tuesday => "Tu",
            Weekday::Wednesday => "We",
            Weekday::Thursday => "Th",
            Weekday::Friday => "Fr",
            Weekday::Saturday => "Sa",
        };
        assert(r@ =~= weekday_abbrev(self.idx()));
        r
    }
}

impl TryFrom<u8> for Weekday {
    type Error = CalError;

    fn try_from(value: u8) -> (r: CalResult<Self>)
        ensures
            r == Self::spec_try_from(value),
    {
        Weekday::from_index(value)
    }
}

impl Weekday {
    pub open spec fn spec_try_from(v: u8) -> CalResult<Weekday> {
        if v < 7 {
            Ok(weekday_of(v as int))
        } else {
            Err(CalError::InvalidWeekday(v))
        }
    }
}

impl vstd::std_specs::convert::TryFromSpecImpl<u8> for Weekday {
    open spec fn obeys_try_from_spec() -> bool {
        true
    }

    open spec fn try_from_spec(v: u8) -> CalResult<Weekday> {
        Weekday::spec_try_from(v)
    }
}

pub proof fn lemma_weekday_of_idx(i: int)
    requires
        0 <= i < 7,
    ensures
        weekday_of(i).idx() == i,
{
}

} // verus!
