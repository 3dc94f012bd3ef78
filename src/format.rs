//! Plain month blocks and their side-by-side layout.

use vstd::prelude::*;
use crate::range::{days_in_month, first_weekday, month_at, CalRange, MonthOfYear};
use crate::text::{centered, decimal, joined, pad2, spaces, center, join_strings, pad2_string};
use crate::wrapper::{month_name, weekday_abbrev, Weekday, lemma_weekday_of_idx};

verus! {

/// Width of a month block, in columns: seven cells of three.
pub const MONTH_WIDTH: usize = 21;

/// Number of day rows in a month block.
pub const DAY_ROWS: usize = 6;

/// Number of lines in a month block: header, weekday row, day rows.
pub const MONTH_ROWS: usize = 8;

/// Number of days in the month before month `m` of year `y`.
pub open spec fn days_before(y: int, m: int) -> int {
    if m == 1 {
        31
    } else {
        days_in_month(y, m - 1)
    }
}

/// The month (1 to 12) that holds day `d` of the grid of month `m` of year `y`,
/// where days before the 1st count down from 0 and days after the last
/// continue past the month's length.
pub open spec fn month_of_day(y: int, m: int, d: int) -> int {
    if d < 1 {
        if m == 1 {
            12
        } else {
            m - 1
        }
    } else if d > days_in_month(y, m) {
        if m == 12 {
            1
        } else {
            m + 1
        }
    } else {
        m
    }
}

/// The day of its own month that grid day `d` of month `m` of year `y` is.
pub open spec fn day_in_month(y: int, m: int, d: int) -> int {
    if d < 1 {
        days_before(y, m) + d
    } else if d > days_in_month(y, m) {
        d - days_in_month(y, m)
    } else {
        d
    }
}

/// The two text columns of grid day `d`: its number when it belongs to month
/// `cur`, or when neighbouring days are shown (`hint`); blanks otherwise.
pub open spec fn day_text(y: int, m: int, d: int, cur: int, hint: bool) -> Seq<char> {
    if month_of_day(y, m, d) == cur || hint {
        pad2(day_in_month(y, m, d) as nat)
    } else {
        spaces(2)
    }
}

/// The seven cells of the week whose first grid day is `s`, each followed by a blank.
pub open spec fn week_text(y: int, m: int, s: int, cur: int, hint: bool) -> Seq<char> {
    Seq::new(7, |k: int| day_text(y, m, s + k, cur, hint) + seq![' ']).flatten()
}

/// The grid day in the first column of the first row: 1 minus the distance
/// from the first weekday `fday` to the weekday of the month's first day.
pub open spec fn grid_start(y: int, m: int, fday: int) -> int {
    1 - ((first_weekday(y, m) - fday) % 7)
}

/// Day row `r` (0 to 5) of month `m` of year `y`.
pub open spec fn day_row(y: int, m: int, fday: int, hint: bool, r: int) -> Seq<char> {
    week_text(y, m, grid_start(y, m, fday) + 7 * r, m, hint)
}

/// The weekday labels starting at weekday `fday`, each followed by a blank.
pub open spec fn week_header(fday: int) -> Seq<char> {
    Seq::new(7, |k: int| weekday_abbrev((fday + k) % 7) + seq![' ']).flatten()
}

/// The month's name, with the year when `with_year`, centered in the block's width.
pub open spec fn month_title(y: int, m: int, with_year: bool) -> Seq<char> {
    if with_year {
        centered(month_name(m) + seq![' '] + decimal(y as nat), 21)
    } else {
        centered(month_name(m), 21)
    }
}

/// The eight lines of the block of month `m` of year `y`.
pub open spec fn month_block(y: int, m: int, fday: int, with_year: bool, hint: bool) -> Seq<
    Seq<char>,
> {
    seq![month_title(y, m, with_year), week_header(fday)] + Seq::new(
        6,
        |r: int| day_row(y, m, fday, hint, r),
    )
}

/// The plain block of month `mo`, year in the title, neighbouring days blank.
pub open spec fn plain_block(mo: MonthOfYear, fday: int) -> Seq<Seq<char>> {
    month_block(mo.spec_year(), mo.spec_month(), fday, true, false)
}

/// Line `i` of a group of blocks: the blocks' lines at `i` joined by `sep`.
pub open spec fn group_line(g: Seq<Seq<Seq<char>>>, sep: Seq<char>, i: int) -> Seq<char> {
    joined(Seq::new(g.len(), |j: int| g[j][i]), sep)
}

/// The eight lines of a group of blocks laid side by side.
pub open spec fn group_lines(g: Seq<Seq<Seq<char>>>, sep: Seq<char>) -> Seq<Seq<char>> {
    Seq::new(8, |i: int| group_line(g, sep, i))
}

/// The lines of the blocks laid out `col` to a row of blocks, in order.
pub open spec fn grid_lines(blocks: Seq<Seq<Seq<char>>>, col: nat, sep: Seq<char>) -> Seq<
    Seq<char>,
>
    decreases blocks.len(),
{
    if blocks.len() == 0 || col == 0 {
        Seq::empty()
    } else if blocks.len() <= col {
        group_lines(blocks, sep)
    } else {
        group_lines(blocks.take(col as int), sep) + grid_lines(blocks.skip(col as int), col, sep)
    }
}

/// The text of the blocks laid out `col` to a row: all lines joined by newlines.
pub open spec fn grid_text(blocks: Seq<Seq<Seq<char>>>, col: nat, sep: Seq<char>) -> Seq<char> {
    joined(grid_lines(blocks, col, sep), seq!['\n'])
}

/// The views of a sequence of rendered blocks.
pub open spec fn block_views(blocks: Seq<Vec<String>>) -> Seq<Seq<Seq<char>>> {
    blocks.map_values(|b: Vec<String>| b@.map_values(|l: String| l@))
}

pub proof fn lemma_week_push(f: spec_fn(int) -> Seq<char>, k: int)
    requires
        0 <= k,
    ensures
        Seq::new((k + 1) as nat, f).flatten() == Seq::new(k as nat, f).flatten() + f(k),
{
    assert(Seq::new((k + 1) as nat, f) =~= Seq::new(k as nat, f).push(f(k)));
    Seq::new(k as nat, f).lemma_flatten_push(f(k));
}

impl Weekday {
    /// The weekday row starting at this weekday, e.g. `Su Mo Tu We Th Fr Sa `.
    pub fn week_line(&self) -> (r: String)
        ensures
            r@ == week_header(self.idx()),
    {
        let ghost f = |k: int| weekday_abbrev((self.idx() + k) % 7) + seq![' '];
        let first = self.index();
        let mut r = String::new();
        let mut k: u8 = 0;
        while k < 7
            invariant
                k <= 7,
                first == self.idx(),
                f == (|k: int| weekday_abbrev((self.idx() + k) % 7) + seq![' ']),
                r@ == Seq::new(k as nat, f).flatten(),
            decreases 7 - k,
        {
            let i = (first + k) % 7;
            let day = weekday_at(i);
            proof {
                lemma_week_push(f, k as int);
                reveal_strlit(" ");
            }
            r.append(day.abbrev());
            r.append(" ");
            k = k + 1;
        }
        r
    }
}

/// The weekday with index `i` in `0..7`.
pub fn weekday_at(i: u8) -> (r: Weekday)
    requires
        i < 7,
    ensures
        r.idx() == i,
{
    proof {
        lemma_weekday_of_idx(i as int);
    }
    match Weekday::from_index(i) {
        Ok(d) => d,
        Err(_) => Weekday::Sunday,
    }
}

/// The grid day in the first column of the first row of month `mo`.
pub fn first_cell_day(mo: &MonthOfYear, fday: &Weekday) -> (r: i64)
    ensures
        r == grid_start(mo.spec_year(), mo.spec_month(), fday.idx()),
        -5 <= r <= 1,
{
    let wf = mo.weekday_of_first().index() as i64;
    let fd = fday.index() as i64;
    1 - (wf - fd + 7) % 7
}

/// Number of days in the month before `mo`.
pub fn num_of_days_before(mo: &MonthOfYear) -> (r: u8)
    ensures
        r == days_before(mo.spec_year(), mo.spec_month()),
{
    let m = mo.month().number();
    if m == 1 {
        31
    } else {
        let before = MonthOfYear(mo.year(), mo.month().pred());
        before.num_of_days()
    }
}

/// The plain text of the week whose first grid day is `s`.
fn plain_week(mo: &MonthOfYear, s: i64, cur: u8, hint: bool) -> (r: String)
    requires
        -6 <= s <= 36,
    ensures
        r@ == week_text(mo.spec_year(), mo.spec_month(), s as int, cur as int, hint),
{
    let ghost y = mo.spec_year();
    let ghost m = mo.spec_month();
    let ghost f = |k: int| day_text(y, m, s + k, cur as int, hint) + seq![' '];
    let len = mo.num_of_days() as i64;
    let before = num_of_days_before(mo) as i64;
    let m_num = mo.month().number();
    let mut r = String::new();
    let mut k: i64 = 0;
    while k < 7
        invariant
            0 <= k <= 7,
            -6 <= s <= 36,
            len == days_in_month(y, m),
            before == days_before(y, m),
            m_num == m,
            y == mo.spec_year(),
            m == mo.spec_month(),
            1 <= m <= 12,
            f == (|k: int| day_text(y, m, s + k, cur as int, hint) + seq![' ']),
            r@ == Seq::new(k as nat, f).flatten(),
        decreases 7 - k,
    {
        let d = s + k;
        let (owner, shown): (u8, i64) = if d < 1 {
            (if m_num == 1 { 12 } else { m_num - 1 }, before + d)
        } else if d > len {
            (if m_num == 12 { 1 } else { m_num + 1 }, d - len)
        } else {
            (m_num, d)
        };
        proof {
            lemma_week_push(f, k as int);
            reveal_strlit(" ");
            reveal_strlit("  ");
        }
        if owner == cur || hint {
            let cell = pad2_string(shown as u32);
            r.append(cell.as_str());
        } else {
            r.append("  ");
        }
        r.append(" ");
        k = k + 1;
    }
    r
}

impl MonthOfYear {
    /// The block's title, e.g. `    November 2022    `.
    pub fn header(&self) -> (r: String)
        ensures
            r@ == month_title(self.spec_year(), self.spec_month(), true),
    {
        proof {
            reveal_strlit(" ");
        }
        let title = self.month().to_string().concat(" ");
        let title = title.concat(self.year().to_string().as_str());
        assert(title@ =~= month_name(self.spec_month()) + seq![' '] + decimal(
            self.spec_year() as nat,
        ));
        center(title.as_str(), MONTH_WIDTH)
    }

    /// The six day rows of this month, first weekday `fday`, other months' days blank.
    pub fn day_matrix(&self, fday: Weekday) -> (r: Vec<String>)
        ensures
            r.len() == 6,
            forall|i: int|
                0 <= i < 6 ==> #[trigger] r@[i]@ == day_row(
                    self.spec_year(),
                    self.spec_month(),
                    fday.idx(),
                    false,
                    i,
                ),
    {
        let start = first_cell_day(self, &fday);
        let cur = self.month().number();
        let mut rows: Vec<String> = Vec::new();
        let mut i: i64 = 0;
        while i < 6
            invariant
                0 <= i <= 6,
                rows.len() == i,
                start == grid_start(self.spec_year(), self.spec_month(), fday.idx()),
                -5 <= start <= 1,
                cur == self.spec_month(),
                forall|j: int|
                    0 <= j < i ==> #[trigger] rows@[j]@ == day_row(
                        self.spec_year(),
                        self.spec_month(),
                        fday.idx(),
                        false,
                        j,
                    ),
            decreases 6 - i,
        {
            let row = plain_week(self, start + 7 * i, cur, false);
            rows.push(row);
            i = i + 1;
        }
        rows
    }

    /// The eight lines of this month's plain block.
    pub fn calendar(&self, fday: Weekday) -> (r: Vec<String>)
        ensures
            r@.map_values(|l: String| l@) == plain_block(*self, fday.idx()),
    {
        let mut cal: Vec<String> = Vec::new();
        cal.push(self.header());
        cal.push(fday.week_line());
        let rows = self.day_matrix(fday);
        let mut i: usize = 0;
        while i < rows.len()
            invariant
                0 <= i <= rows.len(),
                rows.len() == 6,
                cal.len() == i + 2,
                cal@[0]@ == month_title(self.spec_year(), self.spec_month(), true),
                cal@[1]@ == week_header(fday.idx()),
                forall|j: int|
                    0 <= j < 6 ==> #[trigger] rows@[j]@ == day_row(
                        self.spec_year(),
                        self.spec_month(),
                        fday.idx(),
                        false,
                        j,
                    ),
                forall|j: int|
                    0 <= j < i ==> #[trigger] cal@[j + 2]@ == day_row(
                        self.spec_year(),
                        self.spec_month(),
                        fday.idx(),
                        false,
                        j,
                    ),
            decreases rows.len() - i,
        {
            cal.push(rows[i].clone());
            i = i + 1;
        }
        assert(cal@.map_values(|l: String| l@) =~= plain_block(*self, fday.idx())) by {
            assert forall|j: int| 2 <= j < 8 implies #[trigger] cal@[j]@ == plain_block(
                *self,
                fday.idx(),
            )[j] by {
                assert(cal@[(j - 2) + 2]@ == day_row(
                    self.spec_year(),
                    self.spec_month(),
                    fday.idx(),
                    false,
                    j - 2,
                ));
            }
        }
        cal
    }
}

/// Blocks that fit in one row lay out as eight lines, line `i` joining the
/// blocks' lines at `i` with the gutter `sep` between neighbours.
pub proof fn lemma_one_row(blocks: Seq<Seq<Seq<char>>>, col: nat, sep: Seq<char>)
    requires
        1 <= blocks.len() <= col,
    ensures
        grid_lines(blocks, col, sep).len() == 8,
        forall|i: int|
            0 <= i < 8 ==> #[trigger] grid_lines(blocks, col, sep)[i] == joined(
                Seq::new(blocks.len(), |j: int| blocks[j][i]),
                sep,
            ),
{
}

/// Lays the blocks out `column` to a row of blocks: within a row, each line
/// joins the blocks' lines at that position with `sep`; all lines are joined
/// by newlines.
pub fn compose_grid(blocks: &Vec<Vec<String>>, column: usize, sep: &str) -> (r: String)
    requires
        column >= 1,
        forall|b: int| 0 <= b < blocks.len() ==> (#[trigger] blocks@[b]).len() == MONTH_ROWS,
    ensures
        r@ == grid_text(block_views(blocks@), column as nat, sep@),
{
    let ghost views = block_views(blocks@);
    let ghost col = column as nat;
    let n = blocks.len();
    let mut lines: Vec<String> = Vec::new();
    let mut g: usize = 0;
    assert(views.skip(0) =~= views);
    while g < n
        invariant
            g <= n,
            n == blocks.len(),
            column >= 1,
            col == column,
            views == block_views(blocks@),
            forall|b: int| 0 <= b < blocks.len() ==> (#[trigger] blocks@[b]).len() == MONTH_ROWS,
            lines@.map_values(|l: String| l@) + grid_lines(views.skip(g as int), col, sep@)
                == grid_lines(views, col, sep@),
        decreases n - g,
    {
        let end = if n - g <= column {
            n
        } else {
            g + column
        };
        let ghost group = views.subrange(g as int, end as int);
        let ghost before = lines@.map_values(|l: String| l@);
        proof {
            let rest = views.skip(g as int);
            if n - g <= column {
                assert(rest =~= group);
                assert(views.skip(end as int) =~= Seq::<Seq<Seq<char>>>::empty());
            } else {
                assert(rest.take(col as int) =~= group);
                assert(rest.skip(col as int) =~= views.skip(end as int));
            }
            assert(grid_lines(views.skip(g as int), col, sep@) == group_lines(group, sep@)
                + grid_lines(views.skip(end as int), col, sep@));
        }
        let mut i: usize = 0;
        while i < MONTH_ROWS
            invariant
                i <= MONTH_ROWS,
                g < end <= n,
                n == blocks.len(),
                views == block_views(blocks@),
                group == views.subrange(g as int, end as int),
                forall|b: int| 0 <= b < blocks.len() ==> (#[trigger] blocks@[b]).len() == MONTH_ROWS,
                lines@.map_values(|l: String| l@) == before + group_lines(group, sep@).take(i as int),
            decreases MONTH_ROWS - i,
        {
            let mut parts: Vec<String> = Vec::new();
            let mut j: usize = g;
            while j < end
                invariant
                    g <= j <= end,
                    end <= n,
                    i < MONTH_ROWS,
                    n == blocks.len(),
                    views == block_views(blocks@),
                    group == views.subrange(g as int, end as int),
                    forall|b: int| 0 <= b < blocks.len() ==> (#[trigger] blocks@[b]).len() == MONTH_ROWS,
                    parts@.map_values(|p: String| p@) == Seq::new(
                        (j - g) as nat,
                        |t: int| group[t][i as int],
                    ),
                decreases end - j,
            {
                let cell = blocks[j][i].clone();
                assert(group[j - g][i as int] == blocks@[j as int]@[i as int]@);
                let ghost old_parts = parts@;
                parts.push(cell);
                assert(parts@.map_values(|p: String| p@) =~= old_parts.map_values(|p: String| p@).push(
                    cell@,
                ));
                assert(parts@.map_values(|p: String| p@) =~= Seq::new(
                    (j + 1 - g) as nat,
                    |t: int| group[t][i as int],
                ));
                j = j + 1;
            }
            let line = join_strings(&parts, sep);
            assert(line@ == group_line(group, sep@, i as int));
            assert(group_lines(group, sep@)[i as int] == group_line(group, sep@, i as int));
            let ghost old_lines = lines@;
            lines.push(line);
            assert(lines@.map_values(|l: String| l@) =~= old_lines.map_values(|l: String| l@).push(
                line@,
            ));
            assert(lines@.map_values(|l: String| l@) =~= before + group_lines(group, sep@).take(
                i as int + 1,
            ));
            i = i + 1;
        }
        assert(group_lines(group, sep@).take(8) =~= group_lines(group, sep@));
        g = end;
    }
    assert(views.skip(n as int) =~= Seq::<Seq<Seq<char>>>::empty());
    assert(lines@.map_values(|l: String| l@) =~= grid_lines(views, col, sep@));
    proof {
        reveal_strlit("\n");
        assert("\n"@ =~= seq!['\n']);
    }
    join_strings(&lines, "\n")
}

/// A range of months, the first weekday, and how many months stand side by side.
pub struct CalFormat {
    /// The months to show.
    pub range: CalRange,
    /// The first day of each week.
    pub fday: Weekday,
    /// How many months stand side by side.
    pub column: usize,
}

impl CalFormat {
    pub fn new(range: CalRange, fday: Weekday, column: usize) -> (r: Self)
        ensures
            r.range == range,
            r.fday == fday,
            r.column == column,
    {
        CalFormat { range, fday, column }
    }

    /// The plain blocks of the range's months, in order.
    pub open spec fn blocks(self) -> Seq<Seq<Seq<char>>> {
        Seq::new(
            self.range.len as nat,
            |i: int| plain_block(month_at(self.range.start_idx() + i), self.fday.idx()),
        )
    }

    /// The calendar text: the range's blocks, `column` to a row, one blank between blocks.
    pub fn format(&self) -> (r: String)
        requires
            self.range.fits(),
            self.column >= 1,
        ensures
            r@ == grid_text(self.blocks(), self.column as nat, seq![' ']),
    {
        let months = self.range.iter();
        let mut blocks: Vec<Vec<String>> = Vec::new();
        let mut i: usize = 0;
        while i < months.len()
            invariant
                i <= months.len(),
                months.len() == self.range.len,
                blocks.len() == i,
                forall|k: int|
                    0 <= k < months.len() ==> #[trigger] months@[k] == month_at(
                        self.range.start_idx() + k,
                    ),
                forall|b: int| 0 <= b < blocks.len() ==> (#[trigger] blocks@[b]).len() == MONTH_ROWS,
                block_views(blocks@) == self.blocks().take(i as int),
            decreases months.len() - i,
        {
            let block = months[i].calendar(self.fday);
            assert(block@.map_values(|l: String| l@).len() == 8);
            blocks.push(block);
            assert(block_views(blocks@) =~= self.blocks().take(i as int + 1));
            i = i + 1;
        }
        assert(self.blocks().take(i as int) =~= self.blocks());
        proof {
            reveal_strlit(" ");
            assert(" "@ =~= seq![' ']);
        }
        compose_grid(&blocks, self.column, " ")
    }
}

} // verus!
