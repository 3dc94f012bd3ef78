//! Terminal colors for cells, through the `colored` crate, and the text that
//! remains visible once the color escape sequences are left out.

use vstd::prelude::*;
use colored::Colorize;
use crate::text::joined;

verus! {

/// A select-graphic-rendition escape sequence: `ESC [ code m`.
pub open spec fn sgr(code: Seq<char>) -> Seq<char> {
    seq!['\x1b', '['] + code + seq!['m']
}

/// `s` between the escape sequence of `code` and the reset sequence.
pub open spec fn styled(s: Seq<char>, code: Seq<char>) -> Seq<char> {
    sgr(code) + s + sgr(seq!['0'])
}

/// `r` is `s`, either left as it is or wrapped in the style `code`: the
/// `colored` crate decides which from the environment.
pub open spec fn painted(r: Seq<char>, s: Seq<char>, code: Seq<char>) -> bool {
    r == s || r == styled(s, code)
}

pub open spec fn no_escape(s: Seq<char>) -> bool {
    forall|i: int| 0 <= i < s.len() ==> s[i] != '\x1b'
}

/// The characters of `s` that are shown, starting inside an escape sequence
/// when `esc`: an escape sequence runs from `ESC` to the next `m`.
pub open spec fn strip(s: Seq<char>, esc: bool) -> Seq<char>
    decreases s.len(),
{
    if s.len() == 0 {
        Seq::empty()
    } else if esc {
        strip(s.drop_first(), s[0] != 'm')
    } else if s[0] == '\x1b' {
        strip(s.drop_first(), true)
    } else {
        seq![s[0]] + strip(s.drop_first(), false)
    }
}

/// Whether `s`, read from state `esc`, ends inside an escape sequence.
pub open spec fn ends_inside(s: Seq<char>, esc: bool) -> bool
    decreases s.len(),
{
    if s.len() == 0 {
        esc
    } else if esc {
        ends_inside(s.drop_first(), s[0] != 'm')
    } else {
        ends_inside(s.drop_first(), s[0] == '\x1b')
    }
}

/// The text shown on a terminal: `s` without its escape sequences.
pub open spec fn visible(s: Seq<char>) -> Seq<char> {
    strip(s, false)
}

/// `s` leaves no escape sequence open.
pub open spec fn closed(s: Seq<char>) -> bool {
    !ends_inside(s, false)
}

/// Each colored line shows as the plain line at the same position.
pub open spec fn shows_as(c: Seq<Seq<char>>, p: Seq<Seq<char>>) -> bool {
    &&& c.len() == p.len()
    &&& forall|k: int| 0 <= k < c.len() ==> closed(#[trigger] c[k]) && visible(c[k]) == p[k]
}

pub proof fn lemma_strip_concat(a: Seq<char>, b: Seq<char>, esc: bool)
    ensures
        strip(a + b, esc) == strip(a, esc) + strip(b, ends_inside(a, esc)),
        ends_inside(a + b, esc) == ends_inside(b, ends_inside(a, esc)),
    decreases a.len(),
{
    if a.len() == 0 {
        assert(a + b =~= b);
    } else {
        assert((a + b).drop_first() =~= a.drop_first() + b);
        assert((a + b)[0] == a[0]);
        let next = if esc {
            a[0] != 'm'
        } else {
            a[0] == '\x1b'
        };
        lemma_strip_concat(a.drop_first(), b, next);
        if !esc && a[0] != '\x1b' {
            assert(seq![a[0]] + strip(a.drop_first(), false) + strip(b, ends_inside(a, esc))
                =~= seq![a[0]] + (strip(a.drop_first(), false) + strip(
                b,
                ends_inside(a, esc),
            )));
        }
    }
}

pub proof fn lemma_plain_visible(s: Seq<char>)
    requires
        no_escape(s),
    ensures
        strip(s, false) == s,
        !ends_inside(s, false),
    decreases s.len(),
{
    if s.len() > 0 {
        lemma_plain_visible(s.drop_first());
        assert(seq![s[0]] + s.drop_first() =~= s);
    }
}

proof fn lemma_code_hidden(code: Seq<char>)
    requires
        forall|i: int| 0 <= i < code.len() ==> code[i] != 'm',
    ensures
        strip(code, true) == Seq::<char>::empty(),
        ends_inside(code, true),
    decreases code.len(),
{
    if code.len() > 0 {
        lemma_code_hidden(code.drop_first());
    }
}

proof fn lemma_sgr_hidden(code: Seq<char>)
    requires
        forall|i: int| 0 <= i < code.len() ==> code[i] != 'm',
    ensures
        strip(sgr(code), false) == Seq::<char>::empty(),
        !ends_inside(sgr(code), false),
{
    let head = seq!['\x1b', '['];
    lemma_code_hidden(code);
    lemma_strip_concat(head, code + seq!['m'], false);
    lemma_strip_concat(code, seq!['m'], true);
    assert(sgr(code) =~= head + (code + seq!['m']));
    let tail = head.drop_first();
    assert(tail =~= seq!['[']);
    assert(tail.drop_first() =~= Seq::<char>::empty());
    assert(strip(tail, true) == strip(tail.drop_first(), true));
    assert(ends_inside(tail, true) == ends_inside(tail.drop_first(), true));
    assert(strip(head, false) == strip(tail, true));
    assert(ends_inside(head, false) == ends_inside(tail, true));
    let m = seq!['m'];
    assert(m.drop_first() =~= Seq::<char>::empty());
    assert(strip(m, true) == strip(m.drop_first(), false));
    assert(ends_inside(m, true) == ends_inside(m.drop_first(), false));
    assert(Seq::<char>::empty() + Seq::<char>::empty() =~= Seq::<char>::empty());
}

/// Text painted by `colored` shows as the text itself and closes what it opens.
pub proof fn lemma_painted_visible(r: Seq<char>, s: Seq<char>, code: Seq<char>)
    requires
        painted(r, s, code),
        no_escape(s),
        forall|i: int| 0 <= i < code.len() ==> code[i] != 'm',
    ensures
        visible(r) == s,
        closed(r),
{
    lemma_plain_visible(s);
    if r != s {
        let reset = seq!['0'];
        lemma_sgr_hidden(code);
        lemma_sgr_hidden(reset);
        lemma_strip_concat(sgr(code), s + sgr(reset), false);
        lemma_strip_concat(s, sgr(reset), false);
        assert(r =~= sgr(code) + (s + sgr(reset)));
        assert(s + Seq::<char>::empty() =~= s);
    }
}

/// Appending a closed piece appends what it shows.
pub proof fn lemma_append_visible(a: Seq<char>, b: Seq<char>)
    requires
        closed(a),
        closed(b),
    ensures
        visible(a + b) == visible(a) + visible(b),
        closed(a + b),
{
    lemma_strip_concat(a, b, false);
}

/// Joining closed pieces with a plain separator shows as joining what they show.
pub proof fn lemma_joined_visible(c: Seq<Seq<char>>, p: Seq<Seq<char>>, sep: Seq<char>)
    requires
        shows_as(c, p),
        no_escape(sep),
    ensures
        visible(joined(c, sep)) == joined(p, sep),
        closed(joined(c, sep)),
    decreases c.len(),
{
    lemma_plain_visible(sep);
    if c.len() == 0 {
        assert(visible(Seq::<char>::empty()) == Seq::<char>::empty());
    } else if c.len() == 1 {
        assert(closed(c[0]));
    } else {
        let c0 = c.drop_last();
        let p0 = p.drop_last();
        assert(shows_as(c0, p0)) by {
            assert forall|k: int| 0 <= k < c0.len() implies closed(#[trigger] c0[k]) && visible(
                c0[k],
            ) == p0[k] by {
                assert(c0[k] == c[k]);
            }
        }
        lemma_joined_visible(c0, p0, sep);
        assert(closed(c[c.len() - 1]));
        lemma_append_visible(joined(c0, sep), sep);
        lemma_append_visible(joined(c0, sep) + sep, c.last());
    }
}

/// Relies on colored's `Colorize::red` and the `Display` of `ColoredString`:
/// the text is wrapped in `ESC[31m` and `ESC[0m` when coloring is on, and left
/// as it is when the environment turns coloring off.
#[verifier::external_body]
fn red(s: &str) -> (r: String)
    requires
        no_escape(s@),
    ensures
        painted(r@, s@, seq!['3', '1']),
{
    s.red().to_string()
}

/// Relies on colored's `Colorize::reversed` and the `Display` of
/// `ColoredString`: `ESC[7m` before the text and `ESC[0m` after it when
/// coloring is on, the text alone otherwise.
#[verifier::external_body]
fn reversed(s: &str) -> (r: String)
    requires
        no_escape(s@),
    ensures
        painted(r@, s@, seq!['7']),
{
    s.reversed().to_string()
}

/// Relies on colored's `Colorize::dimmed` and the `Display` of
/// `ColoredString`: `ESC[2m` before the text and `ESC[0m` after it when
/// coloring is on, the text alone otherwise.
#[verifier::external_body]
fn dimmed(s: &str) -> (r: String)
    requires
        no_escape(s@),
    ensures
        painted(r@, s@, seq!['2']),
{
    s.dimmed().to_string()
}

/// Relies on colored's `Colorize::red` then `Colorize::reversed` on the
/// `ColoredString`, and its `Display`: one sequence `ESC[7;31m` (style before
/// color) before the text and `ESC[0m` after it when coloring is on, the text
/// alone otherwise.
#[verifier::external_body]
fn red_reversed(s: &str) -> (r: String)
    requires
        no_escape(s@),
    ensures
        painted(r@, s@, seq!['7', ';', '3', '1']),
{
    s.red().reversed().to_string()
}

/// Relies on colored's `Colorize::red` then `Colorize::dimmed` on the
/// `ColoredString`, and its `Display`: one sequence `ESC[2;31m` before the
/// text and `ESC[0m` after it when coloring is on, the text alone otherwise.
#[verifier::external_body]
fn red_dimmed(s: &str) -> (r: String)
    requires
        no_escape(s@),
    ensures
        painted(r@, s@, seq!['2', ';', '3', '1']),
{
    s.red().dimmed().to_string()
}

/// How a cell is drawn.
#[derive(Debug, Clone, Copy, PartialEq, Eq, Structural)]
pub enum Paint {
    /// No style.
    Plain,
    /// A weekend day or label: red.
    Weekend,
    /// The highlighted date: reverse video.
    Today,
    /// The highlighted date on a weekend: red, reverse video.
    WeekendToday,
    /// A neighbouring month's day: dimmed.
    Faded,
    /// A neighbouring month's day on a weekend: red, dimmed.
    WeekendFaded,
}

impl Paint {
    /// The style's code between `ESC[` and `m`; empty for no style.
    pub open spec fn code(self) -> Seq<char> {
        match self {
            Paint::Plain => Seq::empty(),
            Paint::Weekend => seq!['3', '1'],
            Paint::Today => seq!['7'],
            Paint::WeekendToday => seq!['7', ';', '3', '1'],
            Paint::Faded => seq!['2'],
            Paint::WeekendFaded => seq!['2', ';', '3', '1'],
        }
    }

    /// `r` is `s` drawn in this style.
    pub open spec fn paints(self, r: Seq<char>, s: Seq<char>) -> bool {
        if self == Paint::Plain {
            r == s
        } else {
            painted(r, s, self.code())
        }
    }

    /// Draws `s` in this style.
    pub fn apply(&self, s: &str) -> (r: String)
        requires
            no_escape(s@),
        ensures
            self.paints(r@, s@),
            visible(r@) == s@,
            closed(r@),
    {
        let r = match self {
            Paint::Plain => String::from_str(s),
            Paint::Weekend => red(s),
            Paint::Today => reversed(s),
            Paint::WeekendToday => red_reversed(s),
            Paint::Faded => dimmed(s),
            Paint::WeekendFaded => red_dimmed(s),
        };
        proof {
            lemma_painted_visible(r@, s@, self.code());
        }
        r
    }
}

} // verus!
