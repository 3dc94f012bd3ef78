//! The full calendar: colored weekend labels and days, a highlighted date,
//! neighbouring months' days in single-month view, and a whole-year layout.

use vstd::prelude::*;
use crate::format::{
    compose_grid, day_in_month, day_text, first_cell_day, grid_start, grid_text, month_block,
    month_of_day, month_title, num_of_days_before, week_header, week_text, block_views,
    group_lines, grid_lines, MONTH_ROWS, MONTH_WIDTH,
};
use crate::paint::{
    closed, lemma_append_visible, lemma_joined_visible, lemma_plain_visible, no_escape, shows_as,
    visible, Paint,
};
use crate::range::{days_in_month, first_weekday, max_month_index, month_at, CalRange, MonthOfYear};
use crate::text::{centered, decimal, pad2, spaces, center, pad2_string, decimal_string};
use crate::wrapper::{month_name, month_of, weekday_abbrev, Month, Weekday, Year};

verus! {

/// A day of the proleptic Gregorian calendar, from year 1 on.
#[derive(Debug, Clone, Copy, PartialEq, Eq, Structural)]
pub struct CalendarDate {
    /// The year, 1 or later.
    pub year: u32,
    /// The month, 1 to 12.
    pub month: u8,
    /// The day of the month, 1 to the month's length.
    pub day: u8,
}

/// Whether `(y, m, d)` names a real day from year 1 on.
pub open spec fn valid_date(y: int, m: int, d: int) -> bool {
    y >= 1 && 1 <= m <= 12 && 1 <= d <= days_in_month(y, m)
}

/// Saturday and Sunday.
pub open spec fn is_weekend(w: int) -> bool {
    w == 0 || w == 6
}

/// The year that holds grid day `d` of month `m` of year `y`.
pub open spec fn year_of_day(y: int, m: int, d: int) -> int {
    if d < 1 && m == 1 {
        y - 1
    } else if d > days_in_month(y, m) && m == 12 {
        y + 1
    } else {
        y
    }
}

/// The style of a cell: in the month being drawn, red on weekends and in
/// reverse video on the highlighted date; a neighbouring month's day, when
/// shown, dimmed (and red on weekends); blank cells plain.
pub open spec fn paint_for(in_month: bool, today: bool, weekend: bool, hint: bool) -> Paint {
    if in_month {
        if today && weekend {
            Paint::WeekendToday
        } else if today {
            Paint::Today
        } else if weekend {
            Paint::Weekend
        } else {
            Paint::Plain
        }
    } else if hint {
        if weekend {
            Paint::WeekendFaded
        } else {
            Paint::Faded
        }
    } else {
        Paint::Plain
    }
}

/// The style of grid day `d` of month `m` of year `y`, drawn in the frame of
/// month `cur`, in a column of weekday `w`, with `hl` highlighted.
pub open spec fn day_paint(
    y: int,
    m: int,
    d: int,
    cur: int,
    w: int,
    hl: CalendarDate,
    hint: bool,
) -> Paint {
    paint_for(
        month_of_day(y, m, d) == cur,
        hl.year == year_of_day(y, m, d) && hl.month == month_of_day(y, m, d) && hl.day
            == day_in_month(y, m, d),
        is_weekend(w),
        hint,
    )
}

/// `r` is the week whose first grid day is `s`, first weekday `fday`: seven
/// cells, each a blank behind it, each drawn in its style.
pub open spec fn draws_week(
    r: Seq<char>,
    y: int,
    m: int,
    s: int,
    cur: int,
    fday: int,
    hl: CalendarDate,
    hint: bool,
) -> bool {
    exists|cells: Seq<Seq<char>>|
        {
            &&& cells.len() == 7
            &&& r == cells.map_values(|c: Seq<char>| c + seq![' ']).flatten()
            &&& forall|k: int|
                0 <= k < 7 ==> day_paint(y, m, s + k, cur, (fday + k) % 7, hl, hint).paints(
                    #[trigger] cells[k],
                    day_text(y, m, s + k, cur, hint),
                )
        }
}

/// `r` is the weekday row starting at `fday`, weekend labels red.
pub open spec fn draws_week_header(r: Seq<char>, fday: int) -> bool {
    exists|cells: Seq<Seq<char>>|
        {
            &&& cells.len() == 7
            &&& r == cells.map_values(|c: Seq<char>| c + seq![' ']).flatten()
            &&& forall|k: int|
                0 <= k < 7 ==> paint_for(true, false, is_weekend((fday + k) % 7), false).paints(
                    #[trigger] cells[k],
                    weekday_abbrev((fday + k) % 7),
                )
        }
}

/// `lines` is the block of month `m` of year `y`: title, weekday row, six weeks.
pub open spec fn draws_block(
    lines: Seq<Seq<char>>,
    y: int,
    m: int,
    fday: int,
    with_year: bool,
    hl: CalendarDate,
    hint: bool,
) -> bool {
    &&& lines.len() == 8
    &&& lines[0] == month_title(y, m, with_year)
    &&& draws_week_header(lines[1], fday)
    &&& forall|r: int|
        0 <= r < 6 ==> draws_week(
            #[trigger] lines[r + 2],
            y,
            m,
            grid_start(y, m, fday) + 7 * r,
            m,
            fday,
            hl,
            hint,
        )
}

proof fn lemma_pad2_plain(n: nat)
    requires
        n < 100,
    ensures
        no_escape(pad2(n)),
{
    if n >= 10 {
        assert(decimal((n / 10) as nat) == seq![crate::text::digit_char((n / 10) as int)]);
        assert(pad2(n) =~= seq![
            crate::text::digit_char((n / 10) as int),
            crate::text::digit_char((n % 10) as int),
        ]);
    }
}

proof fn lemma_cells_push(cells: Seq<Seq<char>>, c: Seq<char>)
    ensures
        cells.push(c).map_values(|x: Seq<char>| x + seq![' ']).flatten() == cells.map_values(
            |x: Seq<char>| x + seq![' '],
        ).flatten() + (c + seq![' ']),
{
    assert(cells.push(c).map_values(|x: Seq<char>| x + seq![' ']) =~= cells.map_values(
        |x: Seq<char>| x + seq![' '],
    ).push(c + seq![' ']));
    cells.map_values(|x: Seq<char>| x + seq![' ']).lemma_flatten_push(c + seq![' ']);
}

proof fn lemma_blank_closed()
    ensures
        no_escape(seq![' ']),
        visible(seq![' ']) == seq![' '],
        closed(seq![' ']),
{
    lemma_plain_visible(seq![' ']);
}

/// The style of a cell; see `paint_for`.
pub fn choose_paint(in_month: bool, today: bool, weekend: bool, hint: bool) -> (r: Paint)
    ensures
        r == paint_for(in_month, today, weekend, hint),
{
    if in_month {
        if today && weekend {
            Paint::WeekendToday
        } else if today {
            Paint::Today
        } else if weekend {
            Paint::Weekend
        } else {
            Paint::Plain
        }
    } else if hint {
        if weekend {
            Paint::WeekendFaded
        } else {
            Paint::Faded
        }
    } else {
        Paint::Plain
    }
}

/// The colored cell of grid day `d` of month `mo`, in the frame of month
/// `cur`, in a column of weekday `w`.
fn painted_day(mo: &MonthOfYear, d: i64, cur: u8, w: u8, hl: &CalendarDate, hint: bool) -> (r:
    String)
    requires
        -6 <= d <= 42,
        w < 7,
    ensures
        day_paint(mo.spec_year(), mo.spec_month(), d as int, cur as int, w as int, *hl, hint).paints(
            r@,
            day_text(mo.spec_year(), mo.spec_month(), d as int, cur as int, hint),
        ),
        visible(r@) == day_text(mo.spec_year(), mo.spec_month(), d as int, cur as int, hint),
        closed(r@),
{
    let ghost y = mo.spec_year();
    let ghost m = mo.spec_month();
    let len = mo.num_of_days() as i64;
    let before = num_of_days_before(mo) as i64;
    let m_num = mo.month().number();
    let year = mo.year().0 as u64;
    // The owning year is kept shifted by 400, so that the year before year 0
    // stays non-negative.
    let (owner, shown, owner_year): (u8, i64, u64) = if d < 1 {
        if m_num == 1 {
            (12, before + d, year + 399)
        } else {
            (m_num - 1, before + d, year + 400)
        }
    } else if d > len {
        if m_num == 12 {
            (1, d - len, year + 401)
        } else {
            (m_num + 1, d - len, year + 400)
        }
    } else {
        (m_num, d, year + 400)
    };
    let today = hl.month == owner && hl.day as i64 == shown && hl.year as u64 + 400 == owner_year;
    let weekend = w == 0 || w == 6;
    let paint = choose_paint(owner == cur, today, weekend, hint);
    proof {
        reveal_strlit("  ");
        lemma_pad2_plain(shown as nat);
        lemma_plain_visible(spaces(2));
        assert("  "@ =~= spaces(2));
    }
    let text = if owner == cur || hint {
        pad2_string(shown as u32)
    } else {
        String::from_str("  ")
    };
    paint.apply(text.as_str())
}

/// The colored week of month `mo` whose first grid day is `s`, in the frame
/// of month `cur`.
fn painted_week(
    mo: &MonthOfYear,
    s: i64,
    cur: u8,
    fday: Weekday,
    hl: &CalendarDate,
    hint: bool,
) -> (r: String)
    requires
        -6 <= s <= 36,
    ensures
        draws_week(r@, mo.spec_year(), mo.spec_month(), s as int, cur as int, fday.idx(), *hl, hint),
        visible(r@) == week_text(mo.spec_year(), mo.spec_month(), s as int, cur as int, hint),
        closed(r@),
{
    let ghost y = mo.spec_year();
    let ghost m = mo.spec_month();
    let ghost f = |k: int| day_text(y, m, s + k, cur as int, hint) + seq![' '];
    let ghost mut cells: Seq<Seq<char>> = Seq::empty();
    let first = fday.index();
    let mut r = String::new();
    let mut k: i64 = 0;
    proof {
        lemma_plain_visible(Seq::<char>::empty());
        lemma_blank_closed();
        assert(Seq::new(0, f) =~= Seq::<Seq<char>>::empty());
        assert(cells.map_values(|c: Seq<char>| c + seq![' ']) =~= Seq::<Seq<char>>::empty());
    }
    while k < 7
        invariant
            0 <= k <= 7,
            -6 <= s <= 36,
            first == fday.idx(),
            y == mo.spec_year(),
            m == mo.spec_month(),
            f == (|k: int| day_text(y, m, s + k, cur as int, hint) + seq![' ']),
            cells.len() == k,
            r@ == cells.map_values(|c: Seq<char>| c + seq![' ']).flatten(),
            forall|j: int|
                0 <= j < k ==> day_paint(y, m, s + j, cur as int, (fday.idx() + j) % 7, *hl, hint).paints(
                    #[trigger] cells[j],
                    day_text(y, m, s + j, cur as int, hint),
                ),
            visible(r@) == Seq::new(k as nat, f).flatten(),
            closed(r@),
            no_escape(seq![' ']),
            visible(seq![' ']) == seq![' '],
            closed(seq![' ']),
        decreases 7 - k,
    {
        let w = (first + k as u8) % 7;
        let cell = painted_day(mo, s + k, cur, w, hl, hint);
        proof {
            reveal_strlit(" ");
            assert(" "@ =~= seq![' ']);
            crate::format::lemma_week_push(f, k as int);
            lemma_cells_push(cells, cell@);
            lemma_append_visible(r@, cell@);
            lemma_append_visible(r@ + cell@, seq![' ']);
            assert(r@ + (cell@ + seq![' ']) =~= r@ + cell@ + seq![' ']);
            assert(visible(r@ + cell@ + seq![' ']) =~= Seq::new(k as nat, f).flatten() + f(
                k as int,
            ));
            cells = cells.push(cell@);
        }
        r.append(cell.as_str());
        r.append(" ");
        k = k + 1;
    }
    assert(draws_week(r@, y, m, s as int, cur as int, fday.idx(), *hl, hint));
    r
}

proof fn lemma_concat_plain(a: Seq<char>, b: Seq<char>)
    requires
        no_escape(a),
        no_escape(b),
    ensures
        no_escape(a + b),
{
    assert forall|i: int| 0 <= i < (a + b).len() implies (a + b)[i] != '\x1b' by {
        if i < a.len() {
            assert((a + b)[i] == a[i]);
        } else {
            assert((a + b)[i] == b[i - a.len()]);
        }
    }
}

proof fn lemma_decimal_plain(n: nat)
    ensures
        no_escape(decimal(n)),
    decreases n,
{
    if n >= 10 {
        lemma_decimal_plain(n / 10);
        lemma_concat_plain(decimal(n / 10), seq![crate::text::digit_char((n % 10) as int)]);
        assert(decimal(n) =~= decimal(n / 10) + seq![crate::text::digit_char((n % 10) as int)]);
    }
}

proof fn lemma_centered_plain(t: Seq<char>, width: nat)
    requires
        no_escape(t),
    ensures
        no_escape(centered(t, width)),
{
    if t.len() < width {
        let slack = (width - t.len()) as nat;
        lemma_concat_plain(spaces(slack / 2), t);
        lemma_concat_plain(spaces(slack / 2) + t, spaces((slack - slack / 2) as nat));
    }
}

proof fn lemma_title_plain(y: nat, m: int, with_year: bool)
    ensures
        no_escape(month_title(y as int, m, with_year)),
{
    reveal_strlit("January");
    reveal_strlit("February");
    reveal_strlit("March");
    reveal_strlit("April");
    reveal_strlit("May");
    reveal_strlit("June");
    reveal_strlit("July");
    reveal_strlit("August");
    reveal_strlit("September");
    reveal_strlit("October");
    reveal_strlit("November");
    reveal_strlit("December");
    let name = month_name(m);
    assert(no_escape(name));
    if with_year {
        lemma_decimal_plain(y);
        lemma_concat_plain(name, seq![' ']);
        lemma_concat_plain(name + seq![' '], decimal(y));
        lemma_centered_plain(name + seq![' '] + decimal(y), 21);
    } else {
        lemma_centered_plain(name, 21);
    }
}

/// Index (Sunday = 0) of the weekday of day `d` of month `m` of year `y`.
pub open spec fn weekday_of_date(y: int, m: int, d: int) -> int {
    (first_weekday(y, m) + d - 1) % 7
}

/// The grid day, counted in `date`'s month, that begins the week holding
/// `date` when weeks begin on weekday `fday`.
pub open spec fn week_start(date: CalendarDate, fday: int) -> int {
    date.day - ((weekday_of_date(date.year as int, date.month as int, date.day as int) - fday) % 7)
}

impl CalendarDate {
    pub open spec fn wf(self) -> bool {
        valid_date(self.year as int, self.month as int, self.day as int)
    }

    /// The month that holds this date.
    pub open spec fn spec_month_of_year(self) -> MonthOfYear {
        MonthOfYear(Year(self.year), month_of(self.month as int))
    }

    /// The date `year`-`month`-`day`, or `None` unless it is a real day from year 1 on.
    pub fn new(year: i32, month: u32, day: u32) -> (r: Option<CalendarDate>)
        ensures
            r is Some <==> valid_date(year as int, month as int, day as int),
            r matches Some(d) ==> d.year == year && d.month == month && d.day == day && d.wf(),
    {
        if year < 1 || month < 1 || month > 12 || day < 1 {
            return None;
        }
        let mo = MonthOfYear(Year(year as u32), month_from(month as u8));
        if day > mo.num_of_days() as u32 {
            None
        } else {
            Some(CalendarDate { year: year as u32, month: month as u8, day: day as u8 })
        }
    }

    /// The month that holds this date.
    pub fn month_of_year(&self) -> (r: MonthOfYear)
        requires
            self.wf(),
        ensures
            r == self.spec_month_of_year(),
            r.spec_year() == self.year,
            r.spec_month() == self.month,
    {
        MonthOfYear(Year(self.year), month_from(self.month))
    }
}

/// The month with number `n` in `1..=12`.
fn month_from(n: u8) -> (r: Month)
    requires
        1 <= n <= 12,
    ensures
        r == month_of(n as int),
        r.num() == n,
{
    match Month::from_number(n) {
        Ok(m) => m,
        Err(_) => Month::January,
    }
}

/// The block's title: month and year, or the month alone in a whole-year
/// layout, centered, e.g. `    November 2022    `.
pub fn month_year_line(date: CalendarDate, full_year: bool) -> (r: String)
    requires
        date.wf(),
    ensures
        r@ == month_title(date.year as int, date.month as int, !full_year),
{
    let mo = date.month_of_year();
    if full_year {
        let name = mo.month().to_string();
        center(name.as_str(), MONTH_WIDTH)
    } else {
        mo.header()
    }
}

/// The weekday row starting at `start`, weekend labels red.
pub fn weekday_line(start: Weekday) -> (r: String)
    ensures
        draws_week_header(r@, start.idx()),
        visible(r@) == week_header(start.idx()),
        closed(r@),
{
    let ghost f = |k: int| weekday_abbrev((start.idx() + k) % 7) + seq![' '];
    let ghost mut cells: Seq<Seq<char>> = Seq::empty();
    let first = start.index();
    let mut r = String::new();
    let mut k: u8 = 0;
    proof {
        lemma_plain_visible(Seq::<char>::empty());
        lemma_blank_closed();
        assert(Seq::new(0, f) =~= Seq::<Seq<char>>::empty());
        assert(cells.map_values(|c: Seq<char>| c + seq![' ']) =~= Seq::<Seq<char>>::empty());
    }
    while k < 7
        invariant
            k <= 7,
            first == start.idx(),
            f == (|k: int| weekday_abbrev((start.idx() + k) % 7) + seq![' ']),
            cells.len() == k,
            r@ == cells.map_values(|c: Seq<char>| c + seq![' ']).flatten(),
            forall|j: int|
                0 <= j < k ==> paint_for(true, false, is_weekend((start.idx() + j) % 7), false).paints(
                    #[trigger] cells[j],
                    weekday_abbrev((start.idx() + j) % 7),
                ),
            visible(r@) == Seq::new(k as nat, f).flatten(),
            closed(r@),
            no_escape(seq![' ']),
            visible(seq![' ']) == seq![' '],
            closed(seq![' ']),
        decreases 7 - k,
    {
        let w = (first + k) % 7;
        let day = crate::format::weekday_at(w);
        let paint = choose_paint(true, false, w == 0 || w == 6, false);
        let label = day.abbrev();
        let cell = paint.apply(label);
        proof {
            reveal_strlit(" ");
            assert(" "@ =~= seq![' ']);
            crate::format::lemma_week_push(f, k as int);
            lemma_cells_push(cells, cell@);
            lemma_append_visible(r@, cell@);
            lemma_append_visible(r@ + cell@, seq![' ']);
            assert(r@ + (cell@ + seq![' ']) =~= r@ + cell@ + seq![' ']);
            assert(visible(r@ + cell@ + seq![' ']) =~= Seq::new(k as nat + 1, f).flatten());
            cells = cells.push(cell@);
        }
        r.append(cell.as_str());
        r.append(" ");
        k = k + 1;
    }
    assert(draws_week_header(r@, start.idx()));
    r
}

/// The colored week that holds `date`, weeks beginning on `start`; days
/// outside month `cur_month` are blank unless `hint`, which shows them dimmed.
pub fn day_line(date: CalendarDate, start: Weekday, cur_month: u8, hlight: CalendarDate, hint: bool) -> (r:
    String)
    requires
        date.wf(),
    ensures
        draws_week(
            r@,
            date.year as int,
            date.month as int,
            week_start(date, start.idx()),
            cur_month as int,
            start.idx(),
            hlight,
            hint,
        ),
        visible(r@) == week_text(
            date.year as int,
            date.month as int,
            week_start(date, start.idx()),
            cur_month as int,
            hint,
        ),
        closed(r@),
{
    let mo = date.month_of_year();
    let wf = mo.weekday_of_first().index() as i64;
    let wd = (wf + date.day as i64 - 1) % 7;
    let offset = (wd - start.index() as i64 + 7) % 7;
    let s = date.day as i64 - offset;
    proof {
        let fw = first_weekday(date.year as int, date.month as int);
        assert(wd == (fw + date.day - 1) % 7);
        assert(wd == weekday_of_date(date.year as int, date.month as int, date.day as int));
        assert((wd - start.idx() + 7) % 7 == (wd - start.idx()) % 7);
        assert(s == week_start(date, start.idx()));
    }
    painted_week(&mo, s, cur_month, start, &hlight, hint)
}

/// The six colored weeks of `date`'s month, from the week of its first day.
pub fn day_lines(date: CalendarDate, start: Weekday, hlight: CalendarDate, hint: bool) -> (r: Vec<
    String,
>)
    requires
        date.wf(),
    ensures
        r.len() == 6,
        forall|i: int|
            0 <= i < 6 ==> {
                &&& draws_week(
                    #[trigger] r@[i]@,
                    date.year as int,
                    date.month as int,
                    grid_start(date.year as int, date.month as int, start.idx()) + 7 * i,
                    date.month as int,
                    start.idx(),
                    hlight,
                    hint,
                )
                &&& visible(r@[i]@) == week_text(
                    date.year as int,
                    date.month as int,
                    grid_start(date.year as int, date.month as int, start.idx()) + 7 * i,
                    date.month as int,
                    hint,
                )
                &&& closed(r@[i]@)
            },
{
    let mo = date.month_of_year();
    let first = first_cell_day(&mo, &start);
    let mut rows: Vec<String> = Vec::new();
    let mut i: i64 = 0;
    while i < 6
        invariant
            0 <= i <= 6,
            rows.len() == i,
            date.wf(),
            mo == date.spec_month_of_year(),
            mo.spec_year() == date.year,
            mo.spec_month() == date.month,
            first == grid_start(date.year as int, date.month as int, start.idx()),
            -5 <= first <= 1,
            forall|j: int|
                0 <= j < i ==> {
                    &&& draws_week(
                        #[trigger] rows@[j]@,
                        date.year as int,
                        date.month as int,
                        grid_start(date.year as int, date.month as int, start.idx()) + 7 * j,
                        date.month as int,
                        start.idx(),
                        hlight,
                        hint,
                    )
                    &&& visible(rows@[j]@) == week_text(
                        date.year as int,
                        date.month as int,
                        grid_start(date.year as int, date.month as int, start.idx()) + 7 * j,
                        date.month as int,
                        hint,
                    )
                    &&& closed(rows@[j]@)
                },
        decreases 6 - i,
    {
        let row = painted_week(&mo, first + 7 * i, date.month, start, &hlight, hint);
        rows.push(row);
        i = i + 1;
    }
    rows
}

/// The eight colored lines of `date`'s month: title (without the year in a
/// whole-year layout), weekday row, six weeks.
pub fn calendar(date: CalendarDate, start: Weekday, full_year: bool, hlight: CalendarDate, hint: bool) -> (r:
    Vec<String>)
    requires
        date.wf(),
    ensures
        draws_block(
            r@.map_values(|l: String| l@),
            date.year as int,
            date.month as int,
            start.idx(),
            !full_year,
            hlight,
            hint,
        ),
        shows_as(
            r@.map_values(|l: String| l@),
            month_block(date.year as int, date.month as int, start.idx(), !full_year, hint),
        ),
{
    let ghost y = date.year as int;
    let ghost m = date.month as int;
    let title = month_year_line(date, full_year);
    proof {
        lemma_title_plain(date.year as nat, m, !full_year);
        lemma_plain_visible(title@);
    }
    let mut cal: Vec<String> = Vec::new();
    cal.push(title);
    cal.push(weekday_line(start));
    let rows = day_lines(date, start, hlight, hint);
    let mut i: usize = 0;
    while i < 6
        invariant
            i <= 6,
            rows.len() == 6,
            cal.len() == i + 2,
            y == date.year,
            m == date.month,
            cal@[0]@ == month_title(y, m, !full_year),
            visible(cal@[0]@) == cal@[0]@,
            closed(cal@[0]@),
            draws_week_header(cal@[1]@, start.idx()),
            visible(cal@[1]@) == week_header(start.idx()),
            closed(cal@[1]@),
            forall|j: int|
                0 <= j < 6 ==> {
                    &&& draws_week(
                        #[trigger] rows@[j]@,
                        y,
                        m,
                        grid_start(y, m, start.idx()) + 7 * j,
                        m,
                        start.idx(),
                        hlight,
                        hint,
                    )
                    &&& visible(rows@[j]@) == week_text(
                        y,
                        m,
                        grid_start(y, m, start.idx()) + 7 * j,
                        m,
                        hint,
                    )
                    &&& closed(rows@[j]@)
                },
            forall|j: int| 0 <= j < i ==> #[trigger] cal@[j + 2] == rows@[j],
        decreases 6 - i,
    {
        cal.push(rows[i].clone());
        i = i + 1;
    }
    let ghost lines = cal@.map_values(|l: String| l@);
    let ghost plain = month_block(y, m, start.idx(), !full_year, hint);
    assert forall|j: int| 0 <= j < 6 implies #[trigger] lines[j + 2] == rows@[j]@ by {
        assert(cal@[j + 2] == rows@[j]);
    }
    assert(shows_as(lines, plain)) by {
        assert forall|k: int| 0 <= k < lines.len() implies closed(#[trigger] lines[k]) && visible(
            lines[k],
        ) == plain[k] by {
            if k >= 2 {
                assert(lines[(k - 2) + 2] == rows@[k - 2]@);
            }
        }
    }
    cal
}

proof fn lemma_group_visible(g: Seq<Seq<Seq<char>>>, h: Seq<Seq<Seq<char>>>, sep: Seq<char>)
    requires
        g.len() == h.len(),
        forall|b: int| 0 <= b < g.len() ==> shows_as(#[trigger] g[b], h[b]) && g[b].len() == 8,
        no_escape(sep),
    ensures
        shows_as(group_lines(g, sep), group_lines(h, sep)),
{
    assert forall|i: int| 0 <= i < 8 implies closed(#[trigger] group_lines(g, sep)[i]) && visible(
        group_lines(g, sep)[i],
    ) == group_lines(h, sep)[i] by {
        let cs = Seq::new(g.len(), |j: int| g[j][i]);
        let ps = Seq::new(h.len(), |j: int| h[j][i]);
        assert(shows_as(cs, ps)) by {
            assert forall|j: int| 0 <= j < cs.len() implies closed(#[trigger] cs[j]) && visible(cs[j])
                == ps[j] by {
                assert(shows_as(g[j], h[j]));
            }
        }
        lemma_joined_visible(cs, ps, sep);
    }
}

proof fn lemma_shows_as_concat(
    c_head: Seq<Seq<char>>,
    p_head: Seq<Seq<char>>,
    c_tail: Seq<Seq<char>>,
    p_tail: Seq<Seq<char>>,
)
    requires
        shows_as(c_head, p_head),
        shows_as(c_tail, p_tail),
    ensures
        shows_as(c_head + c_tail, p_head + p_tail),
{
    assert forall|k: int| 0 <= k < (c_head + c_tail).len() implies closed(#[trigger] (c_head + c_tail)[k]) && visible(
        (c_head + c_tail)[k],
    ) == (p_head + p_tail)[k] by {
        if k < c_head.len() {
            assert((c_head + c_tail)[k] == c_head[k]);
        } else {
            assert((c_head + c_tail)[k] == c_tail[k - c_head.len()]);
        }
    }
}

/// Colored blocks that show as plain blocks lay out as the plain blocks do.
pub proof fn lemma_grid_visible(c: Seq<Seq<Seq<char>>>, p: Seq<Seq<Seq<char>>>, col: nat, sep: Seq<char>)
    requires
        c.len() == p.len(),
        forall|b: int| 0 <= b < c.len() ==> shows_as(#[trigger] c[b], p[b]) && c[b].len() == 8,
        no_escape(sep),
    ensures
        shows_as(grid_lines(c, col, sep), grid_lines(p, col, sep)),
        visible(grid_text(c, col, sep)) == grid_text(p, col, sep),
        closed(grid_text(c, col, sep)),
    decreases c.len(),
{
    if c.len() == 0 || col == 0 {
    } else if c.len() <= col {
        lemma_group_visible(c, p, sep);
    } else {
        let (c_head, p_head) = (c.take(col as int), p.take(col as int));
        let (c_tail, p_tail) = (c.skip(col as int), p.skip(col as int));
        assert forall|b: int| 0 <= b < c_head.len() implies shows_as(#[trigger] c_head[b], p_head[b]) && c_head[b].len()
            == 8 by {
            assert(c_head[b] == c[b] && p_head[b] == p[b]);
        }
        assert forall|b: int| 0 <= b < c_tail.len() implies shows_as(#[trigger] c_tail[b], p_tail[b]) && c_tail[b].len()
            == 8 by {
            assert(c_tail[b] == c[b + col] && p_tail[b] == p[b + col]);
        }
        lemma_group_visible(c_head, p_head, sep);
        lemma_grid_visible(c_tail, p_tail, col, sep);
        lemma_shows_as_concat(
            group_lines(c_head, sep),
            group_lines(p_head, sep),
            grid_lines(c_tail, col, sep),
            grid_lines(p_tail, col, sep),
        );
    }
    lemma_plain_visible(seq!['\n']);
    lemma_joined_visible(grid_lines(c, col, sep), grid_lines(p, col, sep), seq!['\n']);
}

/// The number of months side by side that fit a terminal of `term_cols`
/// columns (80 when unknown, and at most 80 counted): blocks take 21 columns
/// and gutters 1, or 2 in a whole-year layout.
pub open spec fn spec_default_columns(term_cols: Option<usize>, whole_year: bool) -> int {
    let w: int = match term_cols {
        Some(c) => if c < 80 {
            c as int
        } else {
            80
        },
        None => 80,
    };
    if whole_year {
        (w + 2) / 23
    } else {
        (w + 1) / 22
    }
}

/// See `spec_default_columns`.
pub fn default_columns(term_cols: Option<usize>, whole_year: bool) -> (r: usize)
    ensures
        r == spec_default_columns(term_cols, whole_year),
{
    let w: usize = match term_cols {
        Some(c) => if c < 80 {
            c
        } else {
            80
        },
        None => 80,
    };
    if whole_year {
        (w + 2) / 23
    } else {
        (w + 1) / 22
    }
}

/// What to draw: the queried date, how many months, whether they span the
/// query or fill its whole year, the first weekday, how many months stand side
/// by side, and the date to highlight.
pub struct Calendar {
    /// The queried date.
    pub query: CalendarDate,
    /// How many months to show.
    pub nmon: u32,
    /// Whether the months are centered on the queried month.
    pub span: bool,
    /// Whether to show the queried year, January to December (overrides `nmon` and `span`).
    pub year: bool,
    /// The first day of each week.
    pub fday: Weekday,
    /// How many months stand side by side.
    pub ncol: usize,
    /// The date drawn in reverse video.
    pub hlight: CalendarDate,
}

impl Calendar {
    pub open spec fn wf(self) -> bool {
        self.query.wf() && self.hlight.wf() && self.ncol >= 1
    }

    /// How many months are drawn: 12 in a whole-year layout.
    pub open spec fn count(self) -> nat {
        if self.year {
            12
        } else {
            self.nmon as nat
        }
    }

    /// Position of the first month drawn: January of the queried year in a
    /// whole-year layout; else `nmon / 2` months before the queried month when
    /// spanning, the queried month itself otherwise.
    pub open spec fn first_idx(self) -> int {
        if self.year {
            self.query.year * 12
        } else if self.span {
            self.query.spec_month_of_year().idx() - self.nmon / 2
        } else {
            self.query.spec_month_of_year().idx()
        }
    }

    /// Whether every month drawn lies in a year from 1 to the last representable one.
    pub open spec fn fits(self) -> bool {
        &&& self.wf()
        &&& 12 <= self.first_idx()
        &&& self.first_idx() + self.count() <= max_month_index()
    }

    /// The months drawn, in order.
    pub open spec fn months(self) -> Seq<MonthOfYear> {
        Seq::new(self.count(), |i: int| month_at(self.first_idx() + i))
    }

    /// Whether neighbouring months' days fill the blank cells: single-month view only.
    pub open spec fn hint(self) -> bool {
        !self.year && self.nmon == 1
    }

    /// The gutter between blocks: two blanks in a whole-year layout, one otherwise.
    pub open spec fn gutter(self) -> Seq<char> {
        if self.year {
            seq![' ', ' ']
        } else {
            seq![' ']
        }
    }

    /// The plain blocks of the months drawn.
    pub open spec fn plain_blocks(self) -> Seq<Seq<Seq<char>>> {
        Seq::new(
            self.count(),
            |i: int|
                month_block(
                    self.months()[i].spec_year(),
                    self.months()[i].spec_month(),
                    self.fday.idx(),
                    !self.year,
                    self.hint(),
                ),
        )
    }

    /// The year line above a whole-year layout and the blank line after it.
    pub open spec fn banner(self) -> Seq<char> {
        if self.year {
            centered(decimal(self.query.year as nat), (self.ncol * 21 + (self.ncol - 1) * 2) as nat)
                + seq!['\n', '\n']
        } else {
            Seq::empty()
        }
    }

    /// The calendar for the queried date `ymd`, `nmon` months (12 when `year`),
    /// spanning the query when `span`, weeks from weekday `fday` (Sunday = 0),
    /// `ncol` months side by side (by default as many as fit a terminal of
    /// `term_cols` columns, and at least one), with `hl` highlighted. `None`
    /// when either date is not a real day from year 1 on or `fday` is over 6.
    pub fn new(
        ymd: (i32, u32, u32),
        nmon: u32,
        span: bool,
        year: bool,
        fday: u8,
        ncol: Option<usize>,
        term_cols: Option<usize>,
        hl: (i32, u32, u32),
    ) -> (r: Option<Self>)
        ensures
            r is Some <==> (valid_date(ymd.0 as int, ymd.1 as int, ymd.2 as int) && valid_date(
                hl.0 as int,
                hl.1 as int,
                hl.2 as int,
            ) && fday < 7),
            r matches Some(c) ==> {
                &&& c.wf()
                &&& c.query.year == ymd.0 && c.query.month == ymd.1 && c.query.day == ymd.2
                &&& c.hlight.year == hl.0 && c.hlight.month == hl.1 && c.hlight.day == hl.2
                &&& c.nmon == nmon && c.span == span && c.year == year
                &&& c.fday.idx() == fday
                &&& c.ncol == match ncol {
                    Some(n) => if n >= 1 {
                        n as int
                    } else {
                        1
                    },
                    None => if spec_default_columns(term_cols, year) >= 1 {
                        spec_default_columns(term_cols, year)
                    } else {
                        1
                    },
                }
            },
    {
        let query = CalendarDate::new(ymd.0, ymd.1, ymd.2)?;
        let hlight = CalendarDate::new(hl.0, hl.1, hl.2)?;
        let first = match Weekday::from_index(fday) {
            Ok(w) => w,
            Err(_) => {
                return None;
            },
        };
        proof {
            crate::wrapper::lemma_weekday_of_idx(fday as int);
        }
        let n = match ncol {
            Some(n) => n,
            None => default_columns(term_cols, year),
        };
        let n = if n >= 1 {
            n
        } else {
            1
        };
        Some(Calendar { query, nmon, span, year, fday: first, ncol: n, hlight })
    }

    /// Whether the calendar can be drawn: every month in a representable year
    /// from 1 on, and the year line's width representable.
    pub fn renderable(&self) -> (r: bool)
        requires
            self.wf(),
        ensures
            r == (self.fits() && self.ncol * 23 <= usize::MAX),
    {
        let q: i128 = self.query.year as i128 * 12 + self.query.month as i128 - 1;
        let count: i128 = if self.year {
            12
        } else {
            self.nmon as i128
        };
        let first: i128 = if self.year {
            self.query.year as i128 * 12
        } else if self.span {
            q - (self.nmon / 2) as i128
        } else {
            q
        };
        12 <= first && first + count <= u32::MAX as i128 * 12 + 11 && self.ncol <= usize::MAX / 23
    }

    /// The months drawn, in order.
    pub fn iter_month(&self) -> (r: Vec<MonthOfYear>)
        requires
            self.fits(),
        ensures
            r@ == self.months(),
            self.year ==> r.len() == 12 && forall|i: int|
                0 <= i < 12 ==> #[trigger] r@[i] == MonthOfYear(
                    Year(self.query.year),
                    month_of(i + 1),
                ),
    {
        let range = if self.year {
            CalRange { origin: MonthOfYear(Year(self.query.year), Month::January), len: 12, span: false }
        } else {
            CalRange { origin: self.query.month_of_year(), len: self.nmon as usize, span: self.span }
        };
        let r = range.iter();
        assert(r@ =~= self.months());
        proof {
            if self.year {
                assert forall|i: int| 0 <= i < 12 implies #[trigger] r@[i] == MonthOfYear(
                    Year(self.query.year),
                    month_of(i + 1),
                ) by {
                    let k = self.query.year * 12 + i;
                    assert(k / 12 == self.query.year);
                    assert(k % 12 == i);
                }
            }
        }
        r
    }

    /// The calendar's blocks laid out `ncol` to a row: what shows is the plain
    /// layout of the months drawn, and each block is drawn with its colors.
    pub fn format(&self) -> (r: String)
        requires
            self.fits(),
        ensures
            visible(r@) == grid_text(self.plain_blocks(), self.ncol as nat, self.gutter()),
            closed(r@),
            exists|b: Seq<Seq<Seq<char>>>|
                {
                    &&& b.len() == self.count()
                    &&& r@ == grid_text(b, self.ncol as nat, self.gutter())
                    &&& forall|i: int|
                        0 <= i < b.len() ==> draws_block(
                            #[trigger] b[i],
                            self.months()[i].spec_year(),
                            self.months()[i].spec_month(),
                            self.fday.idx(),
                            !self.year,
                            self.hlight,
                            self.hint(),
                        )
                },
    {
        let months = self.iter_month();
        let hint = !self.year && self.nmon == 1;
        let mut blocks: Vec<Vec<String>> = Vec::new();
        let mut i: usize = 0;
        while i < months.len()
            invariant
                i <= months.len(),
                months@ == self.months(),
                self.fits(),
                hint == self.hint(),
                blocks.len() == i,
                forall|b: int| 0 <= b < blocks.len() ==> (#[trigger] blocks@[b]).len() == MONTH_ROWS,
                forall|b: int|
                    0 <= b < i ==> {
                        &&& draws_block(
                            #[trigger] block_views(blocks@)[b],
                            self.months()[b].spec_year(),
                            self.months()[b].spec_month(),
                            self.fday.idx(),
                            !self.year,
                            self.hlight,
                            self.hint(),
                        )
                        &&& shows_as(block_views(blocks@)[b], self.plain_blocks()[b])
                    },
            decreases months.len() - i,
        {
            let mo = months[i];
            proof {
                crate::range::lemma_month_at_idx(mo);
                crate::range::lemma_idx_month_at(self.first_idx() + i);
            }
            let date = CalendarDate { year: mo.0.0, month: mo.1.number(), day: 1 };
            let block = calendar(date, self.fday, self.year, self.hlight, hint);
            assert(block@.map_values(|l: String| l@).len() == 8);
            let ghost old_blocks = blocks@;
            let ghost bv = block@.map_values(|l: String| l@);
            blocks.push(block);
            proof {
                assert(blocks@[i as int] == block);
                assert(block_views(blocks@)[i as int] == bv);
                assert(self.plain_blocks()[i as int] == month_block(
                    mo.spec_year(),
                    mo.spec_month(),
                    self.fday.idx(),
                    !self.year,
                    self.hint(),
                ));
                assert(mo == self.months()[i as int]);
                assert(date.year as int == mo.spec_year());
                assert(date.month as int == mo.spec_month());
                assert(draws_block(
                    bv,
                    self.months()[i as int].spec_year(),
                    self.months()[i as int].spec_month(),
                    self.fday.idx(),
                    !self.year,
                    self.hlight,
                    self.hint(),
                ));
                assert(shows_as(bv, self.plain_blocks()[i as int]));
                assert forall|b: int| 0 <= b < i + 1 implies {
                    &&& draws_block(
                        #[trigger] block_views(blocks@)[b],
                        self.months()[b].spec_year(),
                        self.months()[b].spec_month(),
                        self.fday.idx(),
                        !self.year,
                        self.hlight,
                        self.hint(),
                    )
                    &&& shows_as(block_views(blocks@)[b], self.plain_blocks()[b])
                } by {
                    if b < i {
                        assert(blocks@[b] == old_blocks[b]);
                        assert(block_views(blocks@)[b] == block_views(old_blocks)[b]);
                    }
                }
            }
            i = i + 1;
        }
        let gutter = if self.year {
            "  "
        } else {
            " "
        };
        proof {
            reveal_strlit("  ");
            reveal_strlit(" ");
            assert(gutter@ =~= self.gutter());
            lemma_plain_visible(seq![' ']);
            lemma_plain_visible(seq![' ', ' ']);
            let views = block_views(blocks@);
            assert forall|b: int| 0 <= b < views.len() implies shows_as(#[trigger] views[b], self.plain_blocks()[b])
                && views[b].len() == 8 by {
                assert(blocks@[b].len() == MONTH_ROWS);
            }
            lemma_grid_visible(views, self.plain_blocks(), self.ncol as nat, self.gutter());
        }
        let r = compose_grid(&blocks, self.ncol, gutter);
        assert(block_views(blocks@).len() == self.count());
        r
    }

    /// The whole text: in a whole-year layout the year centered over the grid
    /// and a blank line, then the grid.
    pub fn to_string(&self) -> (r: String)
        requires
            self.fits(),
            self.ncol * 23 <= usize::MAX,
        ensures
            visible(r@) == self.banner() + grid_text(
                self.plain_blocks(),
                self.ncol as nat,
                self.gutter(),
            ),
            closed(r@),
    {
        let body = self.format();
        if self.year {
            let width = self.ncol * MONTH_WIDTH + (self.ncol - 1) * 2;
            let digits = decimal_string(self.query.year);
            let head = center(digits.as_str(), width);
            proof {
                reveal_strlit("\n\n");
                lemma_decimal_plain(self.query.year as nat);
                lemma_centered_plain(digits@, width as nat);
                lemma_concat_plain(head@, seq!['\n', '\n']);
                lemma_plain_visible(head@ + seq!['\n', '\n']);
                lemma_append_visible(head@ + seq!['\n', '\n'], body@);
                assert("\n\n"@ =~= seq!['\n', '\n']);
            }
            let head = head.concat("\n\n");
            head.concat(body.as_str())
        } else {
            proof {
                assert(self.banner() + visible(body@) =~= visible(body@));
            }
            body
        }
    }
}

} // verus!
