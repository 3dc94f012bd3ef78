//! Months of a year, their arithmetic, and ranges of consecutive months.

use vstd::prelude::*;
use crate::error::{CalError, CalResult};
use crate::wrapper::{is_leap, month_of, Month, Weekday, Year};

verus! {

/// Number of days in month `m` of year `y`.
pub open spec fn days_in_month(y: int, m: int) -> int {
    if m == 2 {
        if is_leap(y) {
            29
        } else {
            28
        }
    } else if m == 4 || m == 6 || m == 9 || m == 11 {
        30
    } else {
        31
    }
}

/// Index (Sunday = 0) of the weekday of the first day of month `m` of year `y`,
/// by the congruence `a = (14 - m) / 12`, `y' = y - a`, `m' = m + 12a - 2`,
/// `(1 + y' + y'/4 - y'/100 + y'/400 + 31m'/12) mod 7`.
pub open spec fn first_weekday(y: int, m: int) -> int {
    let a = (14 - m) / 12;
    let yy = y - a;
    let mm = m + 12 * a - 2;
    (1 + yy + yy / 4 - yy / 100 + yy / 400 + (31 * mm) / 12) % 7
}

/// The largest month position: December of the last representable year.
pub open spec fn max_month_index() -> int {
    u32::MAX as int * 12 + 11
}

/// The month at position `i`, counting months from January of year 0.
pub open spec fn month_at(i: int) -> MonthOfYear {
    MonthOfYear(Year((i / 12) as u32), month_of(i % 12 + 1))
}

/// A month of a given year.
#[derive(Debug, Clone, Copy, PartialEq, Eq, Structural)]
pub struct MonthOfYear(pub Year, pub Month);

impl MonthOfYear {
    /// Chronological position: January of year 0 is 0, and each month adds 1.
    pub open spec fn idx(self) -> int {
        self.0.0 as int * 12 + self.1.num() - 1
    }

    pub open spec fn spec_year(self) -> int {
        self.0.0 as int
    }

    pub open spec fn spec_month(self) -> int {
        self.1.num()
    }

    /// The month that follows, across the year's end.
    pub open spec fn next(self) -> MonthOfYear {
        month_at(self.idx() + 1)
    }

    /// The month that precedes, across the year's start.
    pub open spec fn prev(self) -> MonthOfYear {
        month_at(self.idx() - 1)
    }

    /// Month `month` of `year`; `InvalidMonth(month)` unless it is in `1..=12`.
    pub fn new(year: u32, month: u8) -> (r: CalResult<Self>)
        ensures
            1 <= month <= 12 ==> r == Ok::<MonthOfYear, CalError>(
                MonthOfYear(Year(year), month_of(month as int)),
            ),
            !(1 <= month <= 12) ==> r == Err::<MonthOfYear, CalError>(CalError::InvalidMonth(month)),
    {
        let m = Month::from_number(month)?;
        Ok(MonthOfYear(Year(year), m))
    }

    pub fn year(&self) -> (r: Year)
        ensures
            r == self.0,
    {
        self.0
    }

    pub fn month(&self) -> (r: Month)
        ensures
            r == self.1,
    {
        self.1
    }

    /// Number of days in this month.
    pub fn num_of_days(&self) -> (r: u8)
        ensures
            r == days_in_month(self.spec_year(), self.spec_month()),
    {
        match self.1 {
            Month::January | Month::March | Month::May | Month::July | Month::August
            | Month::October | Month::December => 31,
            Month::April | Month::June | Month::September | Month::November => 30,
            Month::February => {
                if self.0.is_leap_year() {
                    29
                } else {
                    28
                }
            },
        }
    }

    /// The weekday of this month's first day.
    pub fn weekday_of_first(&self) -> (r: Weekday)
        ensures
            r.idx() == first_weekday(self.spec_year(), self.spec_month()),
    {
        let m: u64 = self.1.number() as u64;
        let a: u64 = (14 - m) / 12;
        // 400 years hold a whole number of weeks, so shifting the year by 400
        // keeps the weekday and keeps every term non-negative.
        let y: u64 = self.0.0 as u64 + 400 - a;
        let mm: u64 = m + 12 * a - 2;
        let w: u64 = (1 + y + y / 4 - y / 100 + y / 400 + 31 * mm / 12) % 7;
        proof {
            let yy = self.spec_year() - a;
            assert(y == yy + 400);
            assert(y / 4 == yy / 4 + 100);
            assert(y / 100 == yy / 100 + 4);
            assert(y / 400 == yy / 400 + 1);
            assert((1 + y + y / 4 - y / 100 + y / 400 + 31 * mm / 12) == (1 + yy + yy / 4 - yy
                / 100 + yy / 400 + (31 * mm) / 12) + 7 * 71);
        }
        let r = Weekday::from_index(w as u8);
        match r {
            Ok(d) => d,
            Err(_) => Weekday::Sunday,
        }
    }

    /// The month before.
    pub fn pred(&self) -> (r: Self)
        requires
            self.idx() > 0,
        ensures
            r == self.prev(),
            r.idx() == self.idx() - 1,
    {
        let r = match self.1 {
            Month::January => MonthOfYear(self.0.pred(), self.1.pred()),
            _ => MonthOfYear(self.0, self.1.pred()),
        };
        proof {
            lemma_month_at_idx(r);
        }
        r
    }

    /// The month after.
    pub fn succ(&self) -> (r: Self)
        requires
            self.idx() < max_month_index(),
        ensures
            r == self.next(),
            r.idx() == self.idx() + 1,
    {
        let r = match self.1 {
            Month::December => MonthOfYear(self.0.succ(), self.1.succ()),
            _ => MonthOfYear(self.0, self.1.succ()),
        };
        proof {
            lemma_month_at_idx(r);
        }
        r
    }

    /// A cursor that hands out this month and the ones after it.
    pub fn iter(&self) -> (r: MonthIter)
        ensures
            r.current == *self,
    {
        MonthIter { current: *self }
    }
}

/// A cursor over consecutive months.
pub struct MonthIter {
    /// The month that `next` hands out.
    pub current: MonthOfYear,
}

impl MonthIter {
    /// Hands out the current month and moves on to the one after it.
    pub fn next(&mut self) -> (r: Option<MonthOfYear>)
        requires
            old(self).current.idx() < max_month_index(),
        ensures
            r == Some(old(self).current),
            final(self).current == old(self).current.next(),
            final(self).current.idx() == old(self).current.idx() + 1,
    {
        let cur = self.current;
        self.current = cur.succ();
        Some(cur)
    }
}

/// Every month is found again at its own position.
pub proof fn lemma_month_at_idx(m: MonthOfYear)
    ensures
        month_at(m.idx()) == m,
        0 <= m.idx() <= max_month_index(),
{
    assert(m.idx() / 12 == m.0.0);
    assert(m.idx() % 12 + 1 == m.1.num());
}

/// Positions in range name months whose position they are.
pub proof fn lemma_idx_month_at(i: int)
    requires
        0 <= i <= max_month_index(),
    ensures
        month_at(i).idx() == i,
{
}

/// Stepping forward and back, or back and forward, returns to the same month.
pub proof fn lemma_pred_succ_round_trip(m: MonthOfYear)
    ensures
        m.idx() < max_month_index() ==> m.next().prev() == m,
        m.idx() > 0 ==> m.prev().next() == m,
{
    lemma_month_at_idx(m);
    if m.idx() < max_month_index() {
        lemma_idx_month_at(m.idx() + 1);
    }
    if m.idx() > 0 {
        lemma_idx_month_at(m.idx() - 1);
    }
}

/// Every month has 28 to 31 days, and February has 29 exactly in leap years.
pub proof fn lemma_month_length(y: int, m: int)
    requires
        1 <= m <= 12,
    ensures
        28 <= days_in_month(y, m) <= 31,
        m == 2 ==> (days_in_month(y, m) == 29 <==> is_leap(y)),
        m != 2 ==> days_in_month(y, m) >= 30,
{
}

/// A run of `len` consecutive months around or from an origin month.
pub struct CalRange {
    /// The requested month.
    pub origin: MonthOfYear,
    /// How many months the range holds.
    pub len: usize,
    /// Whether the range is centered on the origin instead of starting there.
    pub span: bool,
}

impl CalRange {
    /// Position of the range's first month: `len / 2` months before the
    /// origin when spanning, the origin otherwise.
    pub open spec fn start_idx(self) -> int {
        if self.span {
            self.origin.idx() - self.len / 2
        } else {
            self.origin.idx()
        }
    }

    /// Whether every month of the range lies within the representable years.
    pub open spec fn fits(self) -> bool {
        0 <= self.start_idx() && self.start_idx() + self.len <= max_month_index()
    }

    /// The range of `len` months for month `month` of `year`;
    /// `InvalidMonth(month)` unless it is in `1..=12`.
    pub fn new(year: u32, month: u8, len: usize, span: bool) -> (r: CalResult<Self>)
        ensures
            1 <= month <= 12 ==> (r matches Ok(c) && c.origin == MonthOfYear(
                Year(year),
                month_of(month as int),
            ) && c.len == len && c.span == span),
            !(1 <= month <= 12) ==> (r matches Err(e) && e == CalError::InvalidMonth(month)),
    {
        let origin = MonthOfYear::new(year, month)?;
        Ok(CalRange { origin, len, span })
    }

    /// Whether every month of the range lies within the representable years.
    pub fn in_range(&self) -> (r: bool)
        ensures
            r == self.fits(),
    {
        let origin: i128 = self.origin.0.0 as i128 * 12 + self.origin.1.number() as i128 - 1;
        let start: i128 = if self.span {
            origin - (self.len / 2) as i128
        } else {
            origin
        };
        0 <= start && start + self.len as i128 <= u32::MAX as i128 * 12 + 11
    }

    /// The months of the range, in order.
    pub fn iter(&self) -> (r: Vec<MonthOfYear>)
        requires
            self.fits(),
        ensures
            r.len() == self.len,
            forall|i: int| 0 <= i < r.len() ==> #[trigger] r@[i] == month_at(self.start_idx() + i),
    {
        let mut start = self.origin;
        if self.span {
            let mut k: usize = 0;
            while k < self.len / 2
                invariant
                    k <= self.len / 2,
                    start.idx() == self.origin.idx() - k,
                    self.fits(),
                    self.span,
                decreases self.len / 2 - k,
            {
                start = start.pred();
                k = k + 1;
            }
        }
        let mut it = start.iter();
        let mut r: Vec<MonthOfYear> = Vec::new();
        while r.len() < self.len
            invariant
                r.len() <= self.len,
                it.current.idx() == self.start_idx() + r.len(),
                self.fits(),
                forall|i: int| 0 <= i < r.len() ==> #[trigger] r@[i] == month_at(self.start_idx() + i),
            decreases self.len - r.len(),
        {
            proof {
                lemma_month_at_idx(it.current);
            }
            let m = it.next();
            match m {
                Some(m) => r.push(m),
                None => {},
            }
        }
        r
    }
}

} // verus!
