//! Text metrics: the width of a text set in a font at a size, from the
//! font's table of advances, and the wrapping of a text into lines no wider
//! than a given width. Widths are in thousandths of a point.

use vstd::prelude::*;
use vstd::string::*;

use crate::text::push_char;
use crate::wrap::{line_ranges, lines_of, words_view, wrap_words};

verus! {

/// The advances of a font's characters, in font units, and the size of its em.
#[derive(Debug, Clone, PartialEq, Eq)]
pub struct FontMetrics {
    pub units_per_em: u16,
    /// Advances of the characters the font has; the first entry for a
    /// character counts.
    pub advances: Vec<(char, u16)>,
    /// The advance of a character that the table lacks.
    pub default_advance: u16,
    pub space_advance: u16,
}

/// The advance of `c` in the table `t`.
pub open spec fn advance_in(t: Seq<(char, u16)>, default: u16, c: char) -> u16
    decreases t.len(),
{
    if t.len() == 0 {
        default
    } else if t[0].0 == c {
        t[0].1
    } else {
        advance_in(t.drop_first(), default, c)
    }
}

/// The advance of `c`.
pub open spec fn advance_of(f: FontMetrics, c: char) -> u16 {
    advance_in(f.advances@, f.default_advance, c)
}

/// The sum of the advances of the characters of `w`.
pub open spec fn word_units(f: FontMetrics, w: Seq<char>) -> int
    decreases w.len(),
{
    if w.len() == 0 {
        0
    } else {
        word_units(f, w.drop_last()) + advance_of(f, w.last())
    }
}

/// The words of `s`: its runs of characters other than the space.
pub open spec fn words_of(s: Seq<char>) -> Seq<Seq<char>>
    decreases s.len(),
{
    if s.len() == 0 {
        Seq::empty()
    } else {
        let w = words_of(s.drop_last());
        let c = s.last();
        if c == ' ' {
            w
        } else if s.len() >= 2 && s[s.len() - 2] != ' ' {
            w.drop_last().push(w.last().push(c))
        } else {
            w.push(seq![c])
        }
    }
}

/// The sum of `word_units` over `ws`.
pub open spec fn words_units(f: FontMetrics, ws: Seq<Seq<char>>) -> int
    decreases ws.len(),
{
    if ws.len() == 0 {
        0
    } else {
        words_units(f, ws.drop_last()) + word_units(f, ws.last())
    }
}

/// The width of `s` in font units: its words and a space between each two.
pub open spec fn text_units(f: FontMetrics, s: Seq<char>) -> int {
    let ws = words_of(s);
    if ws.len() == 0 {
        0
    } else {
        words_units(f, ws) + (ws.len() - 1) * f.space_advance
    }
}

/// A width in font units at `size` points, in thousandths of a point,
/// rounded down.
pub open spec fn scaled(f: FontMetrics, units: int, size: u16) -> int {
    units * size * 1000 / (f.units_per_em as int)
}

pub proof fn lemma_words_of_last(s: Seq<char>)
    requires
        s.len() > 0,
        s.last() != ' ',
    ensures
        words_of(s).len() > 0,
{
}

impl FontMetrics {
    /// The advance of `c`.
    pub fn advance(&self, c: char) -> (r: u16)
        ensures
            r == advance_of(*self, c),
    {
        let n = self.advances.len();
        let mut i: usize = 0;
        proof {
            assert(self.advances@.subrange(0, n as int) =~= self.advances@);
        }
        while i < n
            invariant
                n == self.advances@.len(),
                i <= n,
                advance_of(*self, c) == advance_in(
                    self.advances@.subrange(i as int, n as int),
                    self.default_advance,
                    c,
                ),
            decreases n - i,
        {
            let (ch, adv) = self.advances[i];
            let ghost t = self.advances@.subrange(i as int, n as int);
            proof {
                assert(t[0] == self.advances@[i as int]);
                assert(t.drop_first() =~= self.advances@.subrange(i + 1, n as int));
            }
            if ch == c {
                return adv;
            }
            i = i + 1;
        }
        self.default_advance
    }

    /// The sum of the advances of the characters of `w`.
    pub fn word_width_units(&self, w: &str) -> (r: u128)
        ensures
            r == word_units(*self, w@),
            r <= w@.len() * 0x1_0000,
            r <= 0x1_0000_0000_0000_0000_0000,
    {
        let n = w.unicode_len();
        let mut total: u128 = 0;
        let mut i: usize = 0;
        while i < n
            invariant
                n == w@.len(),
                i <= n,
                total == word_units(*self, w@.subrange(0, i as int)),
                total <= i * 0x1_0000,
            decreases n - i,
        {
            let a = self.advance(w.get_char(i));
            proof {
                let t = w@.subrange(0, i + 1);
                assert(t.drop_last() =~= w@.subrange(0, i as int));
            }
            total = total + a as u128;
            i = i + 1;
        }
        proof {
            assert(w@.subrange(0, n as int) =~= w@);
            assert(n <= 0xffff_ffff_ffff_ffff);
        }
        total
    }

    /// The width of `text` at `size` points, in thousandths of a point: the
    /// advances of its words and of a space between each two.
    pub fn measure(&self, text: &str, size: u16) -> (r: u128)
        requires
            self.units_per_em > 0,
        ensures
            r == scaled(*self, text_units(*self, text@), size),
    {
        let text_len = text.unicode_len();
        let words = split_words(text);
        let n = words.len();
        let mut units: u128 = 0;
        let mut i: usize = 0;
        let ghost wv = words_view(words@);
        proof {
            lemma_words_bounded(text@);
        }
        while i < n
            invariant
                n == words@.len(),
                wv == words_view(words@),
                wv == words_of(text@),
                i <= n,
                units == words_units(*self, wv.subrange(0, i as int)),
                units <= words_chars(wv.subrange(0, i as int)) * 0x1_0000,
                words_chars(wv) <= text@.len(),
                text@.len() == text_len,
            decreases n - i,
        {
            let u = self.word_width_units(words[i].as_str());
            proof {
                let t = wv.subrange(0, i + 1);
                assert(t.drop_last() =~= wv.subrange(0, i as int));
                assert(t.last() == words@[i as int]@);
                lemma_words_chars_prefix(wv, i + 1);
                assert(words_chars(t) == words_chars(wv.subrange(0, i as int)) + t.last().len());
                assert(text_len <= 0xffff_ffff_ffff_ffff);
            }
            units = units + u;
            i = i + 1;
        }
        proof {
            assert(wv.subrange(0, n as int) =~= wv);
        }
        let total = if n == 0 {
            0
        } else {
            proof {
                lemma_words_count(text@);
                assert(text_len <= 0xffff_ffff_ffff_ffff);
                assert((n - 1) * (self.space_advance as int) <= 0xffff_ffff_ffff_ffff * 0xffff)
                    by (nonlinear_arith)
                    requires
                        n <= 0xffff_ffff_ffff_ffff,
                        self.space_advance <= 0xffff,
                ;
            }
            units + (n as u128 - 1) * self.space_advance as u128
        };
        proof {
            assert(total * size * 1000 <= 0x2_0000_0000_0000_0000_0000 * 0xffff * 1000) by (nonlinear_arith)
                requires
                    total <= 0x2_0000_0000_0000_0000_0000,
                    size <= 0xffff,
            ;
        }
        total * size as u128 * 1000 / self.units_per_em as u128
    }
}

/// The number of characters in the words `ws`.
pub open spec fn words_chars(ws: Seq<Seq<char>>) -> int
    decreases ws.len(),
{
    if ws.len() == 0 {
        0
    } else {
        words_chars(ws.drop_last()) + ws.last().len()
    }
}

proof fn lemma_words_chars_prefix(ws: Seq<Seq<char>>, k: int)
    requires
        0 <= k <= ws.len(),
    ensures
        0 <= words_chars(ws.subrange(0, k)) <= words_chars(ws),
    decreases ws.len(),
{
    if ws.len() > 0 {
        if k == ws.len() {
            assert(ws.subrange(0, k) =~= ws);
        } else {
            lemma_words_chars_prefix(ws.drop_last(), k);
            assert(ws.drop_last().subrange(0, k) =~= ws.subrange(0, k));
        }
        lemma_words_chars_prefix(ws.drop_last(), ws.len() - 1);
    }
}

proof fn lemma_words_bounded(s: Seq<char>)
    ensures
        words_chars(words_of(s)) <= s.len(),
    decreases s.len(),
{
    if s.len() > 0 {
        lemma_words_bounded(s.drop_last());
        let w = words_of(s.drop_last());
        let c = s.last();
        if c != ' ' && s.len() >= 2 && s[s.len() - 2] != ' ' {
            let d = s.drop_last();
            assert(d.last() != ' ');
            lemma_words_of_last(d);
            assert(w.drop_last().push(w.last().push(c)).drop_last() =~= w.drop_last());
        } else if c != ' ' {
            assert(w.push(seq![c]).drop_last() =~= w);
        }
    }
}

proof fn lemma_words_count(s: Seq<char>)
    ensures
        words_of(s).len() <= s.len(),
    decreases s.len(),
{
    if s.len() > 0 {
        lemma_words_count(s.drop_last());
        if s.last() != ' ' && s.len() >= 2 && s[s.len() - 2] != ' ' {
            lemma_words_of_last(s.drop_last());
        }
    }
}

/// The words of `text`: its runs of characters other than the space.
pub fn split_words(text: &str) -> (r: Vec<String>)
    ensures
        words_view(r@) == words_of(text@),
{
    let n = text.unicode_len();
    let mut words: Vec<String> = Vec::new();
    let mut i: usize = 0;
    while i < n
        invariant
            n == text@.len(),
            i <= n,
            words_view(words@) == words_of(text@.subrange(0, i as int)),
        decreases n - i,
    {
        let c = text.get_char(i);
        let ghost before = words_view(words@);
        let ghost t = text@.subrange(0, i + 1);
        proof {
            assert(t.drop_last() =~= text@.subrange(0, i as int));
            assert(t.last() == c);
        }
        if c == ' ' {
        } else if i >= 1 && text.get_char(i - 1) != ' ' {
            proof {
                assert(t[t.len() - 2] == text@[i - 1]);
                let d = text@.subrange(0, i as int);
                assert(d.last() == text@[i - 1]);
                lemma_words_of_last(d);
            }
            let mut last = words.pop().unwrap();
            push_char(&mut last, c);
            words.push(last);
            proof {
                assert(words_view(words@) =~= before.drop_last().push(before.last().push(c)));
            }
        } else {
            let mut w = String::new();
            push_char(&mut w, c);
            words.push(w);
            proof {
                assert(w@ =~= seq![c]);
                assert(words_view(words@) =~= before.push(seq![c]));
            }
        }
        i = i + 1;
    }
    proof {
        assert(text@.subrange(0, n as int) =~= text@);
    }
    words
}

/// The widths of the words `ws` at `size` points, in font units times
/// thousandths of a point.
pub open spec fn word_widths(f: FontMetrics, ws: Seq<Seq<char>>, size: u16) -> Seq<u128> {
    Seq::new(ws.len(), |i: int| (word_units(f, ws[i]) * size * 1000) as u128)
}

/// The threshold that a line's width in font units times thousandths of a
/// point reaches exactly when its width in thousandths of a point reaches
/// `max_width`.
pub open spec fn threshold(f: FontMetrics, max_width: u128) -> u128 {
    if max_width * f.units_per_em > u128::MAX {
        u128::MAX
    } else {
        (max_width * f.units_per_em) as u128
    }
}

/// The lines of `text` set at `size` points in a column `max_width` wide.
pub open spec fn wrapped_lines(f: FontMetrics, text: Seq<char>, size: u16, max_width: u128) -> Seq<Seq<char>> {
    lines_of(
        words_of(text),
        line_ranges(
            word_widths(f, words_of(text), size),
            (f.space_advance * size * 1000) as u128,
            threshold(f, max_width),
        ),
    )
}

/// Sets `text` in lines for a column `max_width` thousandths of a point
/// wide: a word goes on the current line, and the line is closed when it
/// measures at least `max_width` with that word in it.
pub fn wrap_text(text: &str, font: &FontMetrics, size: u16, max_width: u128) -> (r: Vec<String>)
    requires
        font.units_per_em > 0,
    ensures
        r@.map_values(|l: String| l@) == wrapped_lines(*font, text@, size, max_width),
{
    let words = split_words(text);
    let n = words.len();
    let mut widths: Vec<u128> = Vec::new();
    let mut i: usize = 0;
    while i < n
        invariant
            n == words@.len(),
            i <= n,
            widths@.len() == i,
            forall|j: int|
                0 <= j < i ==> widths@[j] == word_units(*font, #[trigger] words@[j]@) * size * 1000,
        decreases n - i,
    {
        let u = font.word_width_units(words[i].as_str());
        proof {
            assert(u * size * 1000 <= 0x1_0000_0000_0000_0000_0000 * 0xffff * 1000) by (nonlinear_arith)
                requires
                    u <= 0x1_0000_0000_0000_0000_0000,
                    size <= 0xffff,
            ;
        }
        widths.push(u * size as u128 * 1000);
        i = i + 1;
    }
    proof {
        assert(font.space_advance * size * 1000 <= 0xffff * 0xffff * 1000) by (nonlinear_arith)
            requires
                font.space_advance <= 0xffff,
                size <= 0xffff,
        ;
    }
    let space = font.space_advance as u128 * size as u128 * 1000;
    let max = match max_width.checked_mul(font.units_per_em as u128) {
        Some(x) => x,
        None => u128::MAX,
    };
    let r = wrap_words(&words, &widths, space, max);
    proof {
        let wv = words_view(words@);
        assert forall|j: int| 0 <= j < widths@.len() implies widths@[j] == #[trigger] word_widths(
            *font,
            wv,
            size,
        )[j] by {
            assert(wv[j] == words@[j]@);
        }
        assert(widths@ =~= word_widths(*font, wv, size));
    }
    r
}

} // verus!
