//! Greedy line wrapping. Widths are integers in a unit of the caller's
//! choice: the advance of each word at the font and size in use, and the
//! advance of a space.

use vstd::prelude::*;
use vstd::string::*;

use crate::text::push_char;
use crate::text::push_text;

verus! {

/// Words joined with one space between each two.
pub open spec fn join(words: Seq<Seq<char>>) -> Seq<char>
    decreases words.len(),
{
    if words.len() == 0 {
        Seq::empty()
    } else if words.len() == 1 {
        words[0]
    } else {
        join(words.drop_last()) + seq![' '] + words.last()
    }
}

/// The lines into which the words from index `i` on are set, as ranges of
/// word indices, where the current line began at `start` and measures
/// `width` so far. A word is added to the current line; if the line is then
/// at least `max` wide it is closed with that word in it.
pub open spec fn wrap_ranges(ws: Seq<u128>, space: u128, max: u128, i: int, start: int, width: int) -> Seq<(int, int)>
    decreases ws.len() - i,
{
    if i >= ws.len() || i < 0 {
        if start < i {
            seq![(start, i)]
        } else {
            Seq::empty()
        }
    } else {
        let w = if i == start {
            ws[i] as int
        } else {
            width + space + ws[i]
        };
        if w >= max {
            seq![(start, i + 1)] + wrap_ranges(ws, space, max, i + 1, i + 1, 0)
        } else {
            wrap_ranges(ws, space, max, i + 1, start, w)
        }
    }
}

/// The word ranges of the lines into which words of widths `ws` are set.
pub open spec fn line_ranges(ws: Seq<u128>, space: u128, max: u128) -> Seq<(int, int)> {
    wrap_ranges(ws, space, max, 0, 0, 0)
}

/// The text of each line.
pub open spec fn lines_of(words: Seq<Seq<char>>, ranges: Seq<(int, int)>) -> Seq<Seq<char>> {
    ranges.map_values(|g: (int, int)| join(words.subrange(g.0, g.1)))
}

pub open spec fn words_view(words: Seq<String>) -> Seq<Seq<char>> {
    words.map_values(|w: String| w@)
}

/// Sets words greedily into lines no wider than `max_width`, except that the
/// word that makes a line reach `max_width` stays on that line. A word is
/// never split. No words give no lines.
pub fn wrap_words(words: &Vec<String>, widths: &Vec<u128>, space: u128, max_width: u128) -> (r: Vec<String>)
    requires
        words@.len() == widths@.len(),
    ensures
        r@.map_values(|l: String| l@) == lines_of(
            words_view(words@),
            line_ranges(widths@, space, max_width),
        ),
{
    let n = widths.len();
    let ghost ws = widths@;
    let ghost wv = words_view(words@);
    let ghost total = line_ranges(ws, space, max_width);
    let mut lines: Vec<String> = Vec::new();
    let ghost mut done: Seq<(int, int)> = Seq::empty();
    let mut current = String::new();
    let mut start: usize = 0;
    let mut width: u128 = 0;
    let mut i: usize = 0;
    while i < n
        invariant
            n == ws.len(),
            ws == widths@,
            wv == words_view(words@),
            words@.len() == n,
            start <= i <= n,
            start < i ==> width < max_width,
            start == i ==> width == 0,
            done + wrap_ranges(ws, space, max_width, i as int, start as int, width as int) == total,
            lines@.map_values(|l: String| l@) == lines_of(wv, done),
            current@ == join(wv.subrange(start as int, i as int)),
        decreases n - i,
    {
        let step = if i == start {
            Some(widths[i])
        } else {
            match width.checked_add(space) {
                Some(x) => x.checked_add(widths[i]),
                None => None,
            }
        };
        let ghost w_true: int = if i == start {
            ws[i as int] as int
        } else {
            width + space + ws[i as int]
        };
        let closes = match step {
            Some(x) => x >= max_width,
            None => true,
        };
        if i > start {
            push_char(&mut current, ' ');
        }
        push_text(&mut current, words[i].as_str());
        proof {
            let g = wv.subrange(start as int, i + 1);
            assert(g.drop_last() =~= wv.subrange(start as int, i as int));
            assert(wv[i as int] == words@[i as int]@);
            if i > start {
                assert(current@ =~= join(g));
            } else {
                assert(g =~= seq![wv[i as int]]);
                assert(current@ =~= join(g));
            }
        }
        if closes {
            proof {
                assert(w_true >= max_width);
                assert(lines_of(wv, done.push((start as int, i + 1))) =~= lines_of(wv, done).push(
                    current@,
                ));
                assert(lines@.push(current).map_values(|l: String| l@) =~= lines@.map_values(
                    |l: String| l@,
                ).push(current@));
                assert(done.push((start as int, i + 1)) + wrap_ranges(ws, space, max_width, i + 1, i + 1, 0)
                    =~= done + (seq![(start as int, i + 1)] + wrap_ranges(ws, space, max_width, i + 1, i + 1, 0)));
                done = done.push((start as int, i + 1));
            }
            lines.push(current);
            current = String::new();
            start = i + 1;
            width = 0;
            proof {
                assert(current@ =~= join(wv.subrange(start as int, start as int)));
            }
        } else {
            width = match step {
                Some(x) => x,
                None => 0,
            };
        }
        i = i + 1;
    }
    if start < n {
        proof {
            assert(lines_of(wv, done.push((start as int, n as int))) =~= lines_of(wv, done).push(
                current@,
            ));
            assert(lines@.push(current).map_values(|l: String| l@) =~= lines@.map_values(
                |l: String| l@,
            ).push(current@));
            assert(done + seq![(start as int, n as int)] =~= done.push((start as int, n as int)));
        }
        lines.push(current);
    } else {
        proof {
            assert(done + Seq::<(int, int)>::empty() =~= done);
        }
    }
    lines
}


/// `gs` cuts the indices from `a` to `b` into consecutive non-empty ranges.
pub open spec fn partitions(gs: Seq<(int, int)>, a: int, b: int) -> bool
    decreases gs.len(),
{
    if gs.len() == 0 {
        a == b
    } else {
        gs[0].0 == a && gs[0].0 < gs[0].1 && partitions(gs.drop_first(), gs[0].1, b)
    }
}

proof fn lemma_wrap_ranges_partition(ws: Seq<u128>, space: u128, max: u128, i: int, start: int, width: int)
    requires
        0 <= start <= i <= ws.len(),
    ensures
        partitions(wrap_ranges(ws, space, max, i, start, width), start, ws.len() as int),
    decreases ws.len() - i,
{
    let r = wrap_ranges(ws, space, max, i, start, width);
    if i >= ws.len() {
        if start < i {
            assert(r == seq![(start, i)]);
            assert(r[0] == (start, i));
            assert(r.drop_first() =~= Seq::<(int, int)>::empty());
            assert(partitions(r.drop_first(), i, ws.len() as int));
            assert(partitions(r, start, ws.len() as int));
        } else {
            assert(partitions(r, start, ws.len() as int));
        }
    } else {
        let w = if i == start {
            ws[i] as int
        } else {
            width + space + ws[i]
        };
        if w >= max {
            lemma_wrap_ranges_partition(ws, space, max, i + 1, i + 1, 0);
            let rest = wrap_ranges(ws, space, max, i + 1, i + 1, 0);
            assert(r == seq![(start, i + 1)] + rest);
            assert(r[0] == (start, i + 1));
            assert(r.drop_first() =~= rest);
            assert(partitions(r, start, ws.len() as int));
        } else {
            lemma_wrap_ranges_partition(ws, space, max, i + 1, start, w);
            assert(r == wrap_ranges(ws, space, max, i + 1, start, w));
        }
    }
}

proof fn lemma_join_append(u: Seq<Seq<char>>, v: Seq<Seq<char>>)
    requires
        u.len() >= 1,
        v.len() >= 1,
    ensures
        join(u + v) == join(u) + seq![' '] + join(v),
    decreases v.len(),
{
    assert((u + v).drop_last() =~= u + v.drop_last());
    assert((u + v).last() == v.last());
    if v.len() > 1 {
        lemma_join_append(u, v.drop_last());
        assert(join(u + v) =~= join(u) + seq![' '] + join(v));
    } else {
        assert(v.drop_last().len() == 0);
        assert(u + v.drop_last() =~= u);
        assert(join(v) == v[0]);
        assert(join(u + v) =~= join(u) + seq![' '] + join(v));
    }
}

proof fn lemma_join_partition(words: Seq<Seq<char>>, gs: Seq<(int, int)>, a: int, b: int)
    requires
        partitions(gs, a, b),
        0 <= a <= b <= words.len(),
    ensures
        join(lines_of(words, gs)) == join(words.subrange(a, b)),
    decreases gs.len(),
{
    if gs.len() == 0 {
        assert(lines_of(words, gs) =~= Seq::<Seq<char>>::empty());
        assert(words.subrange(a, b) =~= Seq::<Seq<char>>::empty());
    } else {
        let c = gs[0].1;
        let rest = gs.drop_first();
        lemma_partition_bounds(rest, c, b);
        lemma_join_partition(words, rest, c, b);
        let x = join(words.subrange(a, c));
        assert(lines_of(words, gs) =~= seq![x] + lines_of(words, rest));
        if rest.len() == 0 {
            assert(c == b);
            assert(seq![x] + lines_of(words, rest) =~= seq![x]);
        } else {
            lemma_join_append(seq![x], lines_of(words, rest));
            assert(join(seq![x]) == x);
            lemma_join_append(words.subrange(a, c), words.subrange(c, b));
            assert(words.subrange(a, c) + words.subrange(c, b) =~= words.subrange(a, b));
        }
    }
}

proof fn lemma_partition_bounds(gs: Seq<(int, int)>, a: int, b: int)
    requires
        partitions(gs, a, b),
    ensures
        a <= b,
        gs.len() > 0 ==> a < b,
        gs.len() == 0 ==> a == b,
    decreases gs.len(),
{
    if gs.len() > 0 {
        lemma_partition_bounds(gs.drop_first(), gs[0].1, b);
    }
}

/// Wrapping keeps the words whole and in order: the lines cut the words into
/// consecutive non-empty runs, and the lines joined with single spaces are
/// the words joined with single spaces.
pub proof fn lemma_wrap_keeps_words(words: Seq<Seq<char>>, ws: Seq<u128>, space: u128, max: u128)
    requires
        words.len() == ws.len(),
    ensures
        partitions(line_ranges(ws, space, max), 0, ws.len() as int),
        join(lines_of(words, line_ranges(ws, space, max))) == join(words),
{
    lemma_wrap_ranges_partition(ws, space, max, 0, 0, 0);
    lemma_join_partition(words, line_ranges(ws, space, max), 0, ws.len() as int);
    assert(words.subrange(0, ws.len() as int) =~= words);
}

/// No words give no lines.
pub proof fn lemma_wrap_empty(space: u128, max: u128)
    ensures
        line_ranges(Seq::empty(), space, max) == Seq::<(int, int)>::empty(),
{
}

} // verus!
