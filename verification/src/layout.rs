//! What the full-screen display shows: lyric lines wrapped to the terminal
//! width, the active line with the lines around it, and, for lyrics with
//! word timings, how far each word of the active line is highlighted. The
//! result is plain text with a style per line or word, which the terminal
//! front end draws.

use vstd::prelude::*;
use crate::state::{Provider, Update};
use crate::text::{chars_of, copy_range, string_from_chars, trim, views};
use crate::types::{LyricLine, WordTiming};

verus! {

/// How `textwrap::wrap` breaks one line of text into lines at most `width`
/// columns wide.
pub uninterp spec fn wrapped(line: Seq<char>, width: nat) -> Seq<Seq<char>>;

/// Wraps one line of text (`textwrap::wrap` with the default options).
#[verifier::external_body]
fn textwrap_wrap(line: &str, width: usize) -> (r: Vec<String>)
    ensures
        views(r@) == wrapped(line@, width as nat),
{
    textwrap::wrap(line, width).into_iter().map(|c| c.into_owned()).collect()
}

/// `s` without one trailing carriage return.
pub open spec fn strip_cr(s: Seq<char>) -> Seq<char> {
    if s.len() > 0 && s.last() == '\r' {
        s.drop_last()
    } else {
        s
    }
}

/// The lines of `s[i..]` as `str::lines` gives them: split at `\n`, a
/// trailing `\r` removed from each, no line after a final `\n`.
pub open spec fn text_lines(s: Seq<char>, i: int) -> Seq<Seq<char>>
    decreases s.len() - i,
{
    if i < 0 || i >= s.len() {
        Seq::empty()
    } else {
        let j = crate::text::next_sep(s, i, '\n');
        proof {
            crate::text::lemma_next_sep_bounds(s, i, '\n');
        }
        if j >= s.len() {
            seq![strip_cr(s.subrange(i, j))]
        } else {
            seq![strip_cr(s.subrange(i, j))] + text_lines(s, j + 1)
        }
    }
}

/// The concatenation of a sequence of line lists.
pub open spec fn flat(b: Seq<Seq<Seq<char>>>) -> Seq<Seq<char>>
    decreases b.len(),
{
    if b.len() == 0 {
        Seq::empty()
    } else {
        flat(b.drop_last()) + b.last()
    }
}

/// The wrapped form of one line of text: blank lines stay one empty line,
/// others are wrapped.
pub open spec fn wrap_line(l: Seq<char>, width: nat) -> Seq<Seq<char>> {
    if trim(l).len() == 0 {
        seq![Seq::empty()]
    } else {
        wrapped(l, width)
    }
}

/// Text wrapped for display: each of its lines wrapped to `width`, blank
/// lines kept as empty lines.
pub open spec fn wrapped_text(text: Seq<char>, width: nat) -> Seq<Seq<char>> {
    flat(text_lines(text, 0).map_values(|l: Seq<char>| wrap_line(l, width)))
}

/// Wraps text to `width` columns, keeping empty lines and not splitting
/// words.
pub fn wrap_text(text: &str, width: usize) -> (r: Vec<String>)
    ensures
        views(r@) == wrapped_text(text@, width as nat),
{
    let v = chars_of(text);
    let ghost s = v@;
    let n = v.len();
    let mut out: Vec<String> = Vec::new();
    let mut i: usize = 0;
    let ghost mut done: Seq<Seq<char>> = Seq::empty();
    while i < n
        invariant
            n == v@.len(),
            s == v@,
            s == text@,
            i <= n,
            done + text_lines(s, i as int) == text_lines(s, 0),
            views(out@) == flat(done.map_values(|l: Seq<char>| wrap_line(l, width as nat))),
        decreases n - i,
    {
        let mut j = i;
        while j < n && v[j] != '\n'
            invariant
                i <= j <= n,
                n == v@.len(),
                s == v@,
                crate::text::next_sep(s, j as int, '\n') == crate::text::next_sep(
                    s,
                    i as int,
                    '\n',
                ),
            decreases n - j,
        {
            j = j + 1;
        }
        assert(crate::text::next_sep(s, i as int, '\n') == j);
        let end = if j > i && v[j - 1] == '\r' {
            j - 1
        } else {
            j
        };
        let line = copy_range(v.as_slice(), i, end);
        assert(line@ == strip_cr(s.subrange(i as int, j as int))) by {
            if j > i && s[j - 1] == '\r' {
                assert(s.subrange(i as int, j as int).drop_last() =~= s.subrange(
                    i as int,
                    end as int,
                ));
            } else {
                assert(s.subrange(i as int, end as int) =~= s.subrange(i as int, j as int));
            }
        }
        let (lo, hi) = crate::text::trim_bounds(line.as_slice(), 0, line.len());
        assert(line@.subrange(0, line@.len() as int) =~= line@);
        let ghost before = views(out@);
        let ghost l = line@;
        if lo == hi {
            out.push(String::new());
            assert(views(out@) =~= before + wrap_line(l, width as nat));
        } else {
            let s_line = string_from_chars(line.as_slice());
            let pieces = textwrap_wrap(s_line.as_str(), width);
            let mut k: usize = 0;
            while k < pieces.len()
                invariant
                    k <= pieces@.len(),
                    views(out@) == before + views(pieces@).take(k as int),
                decreases pieces@.len() - k,
            {
                let ghost prev = out@;
                out.push(pieces[k].clone());
                proof {
                    lemma_map_push(prev, pieces@[k as int], |x: String| x@);
                    assert(views(pieces@).take(k + 1) =~= views(pieces@).take(k as int).push(
                        pieces@[k as int]@,
                    ));
                }
                assert(views(out@) =~= before + views(pieces@).take(k + 1));
                k = k + 1;
            }
            assert(views(pieces@).take(k as int) =~= views(pieces@));
            assert(views(out@) == before + wrap_line(l, width as nat));
        }
        proof {
            let done2 = done.push(l);
            assert(done2.map_values(|x: Seq<char>| wrap_line(x, width as nat)).drop_last()
                =~= done.map_values(|x: Seq<char>| wrap_line(x, width as nat)));
            if j >= n {
                assert(done2 + text_lines(s, n as int) =~= done + text_lines(s, i as int));
            } else {
                assert(done2 + text_lines(s, j + 1) =~= done + text_lines(s, i as int));
            }
            done = done2;
        }
        if j >= n {
            i = n;
        } else {
            i = j + 1;
        }
    }
    assert(text_lines(s, i as int) =~= Seq::<Seq<char>>::empty());
    assert(done =~= text_lines(s, 0));
    out
}

/// Mapping after a push is pushing the mapped element.
pub proof fn lemma_map_push<A, B>(s: Seq<A>, x: A, f: spec_fn(A) -> B)
    ensures
        s.push(x).map_values(f) == s.map_values(f).push(f(x)),
{
    assert(s.push(x).map_values(f) =~= s.map_values(f).push(f(x)));
}

/// How a piece of the display is drawn.
#[derive(Debug, Clone, Copy, PartialEq, Eq, Structural)]
pub enum LineStyle {
    /// A line already sung.
    Before,
    /// The active line, or the sung part of a word.
    Current,
    /// A line to come, or the unsung part of a word.
    After,
    /// A line further ahead, drawn dimmer.
    AfterDim,
}

/// The style of a line `dist` lines away from the active one, before or
/// after it: the active line itself, past lines, the next line, and the
/// lines further ahead dimmed.
pub fn line_style_by_distance(dist: usize, is_before: bool) -> (r: LineStyle)
    ensures
        r == (if dist == 0 {
            LineStyle::Current
        } else if is_before {
            LineStyle::Before
        } else if dist == 1 {
            LineStyle::After
        } else {
            LineStyle::AfterDim
        }),
{
    if dist == 0 {
        LineStyle::Current
    } else if is_before {
        LineStyle::Before
    } else if dist == 1 {
        LineStyle::After
    } else {
        LineStyle::AfterDim
    }
}

/// The wrapped lines of each lyric line, as plain values.
pub open spec fn block_views(blocks: Seq<Vec<String>>) -> Seq<Seq<Seq<char>>> {
    blocks.map_values(|b: Vec<String>| views(b@))
}

/// The last `n` elements of `s` (all of them when it is shorter).
pub open spec fn last_n<A>(s: Seq<A>, n: nat) -> Seq<A> {
    if n >= s.len() {
        s
    } else {
        s.skip(s.len() - n)
    }
}

/// The first `n` elements of `s` (all of them when it is shorter).
pub open spec fn first_n<A>(s: Seq<A>, n: nat) -> Seq<A> {
    if n >= s.len() {
        s
    } else {
        s.take(n as int)
    }
}

/// The wrapped lines of `blocks[lo..hi]`, one after the other.
fn concat_blocks(blocks: &Vec<Vec<String>>, lo: usize, hi: usize) -> (r: Vec<String>)
    requires
        lo <= hi <= blocks@.len(),
    ensures
        views(r@) == flat(block_views(blocks@).subrange(lo as int, hi as int)),
{
    let mut out: Vec<String> = Vec::new();
    let mut i = lo;
    assert(block_views(blocks@).subrange(lo as int, lo as int) =~= Seq::<Seq<Seq<char>>>::empty());
    while i < hi
        invariant
            lo <= i <= hi <= blocks@.len(),
            views(out@) == flat(block_views(blocks@).subrange(lo as int, i as int)),
        decreases hi - i,
    {
        let b = &blocks[i];
        let ghost before = views(out@);
        let mut k: usize = 0;
        while k < b.len()
            invariant
                k <= b@.len(),
                views(out@) == before + views(b@).take(k as int),
            decreases b@.len() - k,
        {
            let ghost prev = out@;
            out.push(b[k].clone());
            proof {
                lemma_map_push(prev, b@[k as int], |x: String| x@);
                assert(views(b@).take(k + 1) =~= views(b@).take(k as int).push(b@[k as int]@));
            }
            assert(views(out@) =~= before + views(b@).take(k + 1));
            k = k + 1;
        }
        proof {
            assert(views(b@).take(k as int) =~= views(b@));
            let bv = block_views(blocks@);
            assert(bv.subrange(lo as int, i + 1).drop_last() =~= bv.subrange(lo as int, i as int));
            assert(bv.subrange(lo as int, i + 1).last() == views(b@));
        }
        i = i + 1;
    }
    out
}

/// The last `n` elements of `v`.
fn keep_last(v: Vec<String>, n: usize) -> (r: Vec<String>)
    ensures
        views(r@) == last_n(views(v@), n as nat),
{
    if n >= v.len() {
        return v;
    }
    let mut out: Vec<String> = Vec::new();
    let start = v.len() - n;
    let mut i = start;
    while i < v.len()
        invariant
            start <= i <= v@.len(),
            start == v@.len() - n,
            views(out@) == views(v@).subrange(start as int, i as int),
        decreases v@.len() - i,
    {
        let ghost prev = out@;
        out.push(v[i].clone());
        proof {
            lemma_map_push(prev, v@[i as int], |x: String| x@);
        }
        assert(views(out@) =~= views(v@).subrange(start as int, i + 1));
        i = i + 1;
    }
    assert(views(v@).skip(start as int) =~= views(v@).subrange(start as int, v@.len() as int));
    out
}

/// The first `n` elements of `v`.
fn keep_first(v: Vec<String>, n: usize) -> (r: Vec<String>)
    ensures
        views(r@) == first_n(views(v@), n as nat),
{
    if n >= v.len() {
        return v;
    }
    let mut out: Vec<String> = Vec::new();
    let mut i: usize = 0;
    while i < n
        invariant
            i <= n < v@.len(),
            views(out@) == views(v@).take(i as int),
        decreases n - i,
    {
        let ghost prev = out@;
        out.push(v[i].clone());
        proof {
            lemma_map_push(prev, v@[i as int], |x: String| x@);
        }
        assert(views(out@) =~= views(v@).take(i + 1));
        i = i + 1;
    }
    out
}

/// The screen lines just above the active line: the last `lines_needed`
/// wrapped lines of the lyric lines before `current_index`.
pub fn collect_before_spans(current_index: usize, blocks: &Vec<Vec<String>>, lines_needed: usize) -> (r:
    Vec<String>)
    requires
        current_index <= blocks@.len() || lines_needed == 0,
    ensures
        current_index <= blocks@.len() ==> views(r@) == last_n(
            flat(block_views(blocks@).take(current_index as int)),
            lines_needed as nat,
        ),
        lines_needed == 0 ==> r@.len() == 0,
{
    if lines_needed == 0 {
        let empty: Vec<String> = Vec::new();
        proof {
            let s = flat(block_views(blocks@).take(current_index as int));
            if current_index <= blocks@.len() && s.len() > 0 {
                assert(last_n(s, 0) =~= Seq::<Seq<char>>::empty());
            }
        }
        assert(views(empty@) =~= Seq::<Seq<char>>::empty());
        return empty;
    }
    let all = concat_blocks(blocks, 0, current_index);
    assert(block_views(blocks@).subrange(0, current_index as int) =~= block_views(blocks@).take(
        current_index as int,
    ));
    keep_last(all, lines_needed)
}

/// The screen lines just below the active line: the first `lines_needed`
/// wrapped lines of the lyric lines after `current_index`.
pub fn collect_after_spans(current_index: usize, blocks: &Vec<Vec<String>>, lines_needed: usize) -> (r:
    Vec<String>)
    ensures
        views(r@) == first_n(
            flat(
                if current_index < blocks@.len() {
                    block_views(blocks@).skip(current_index + 1)
                } else {
                    Seq::empty()
                },
            ),
            lines_needed as nat,
        ),
{
    if current_index >= blocks.len() {
        let empty: Vec<String> = Vec::new();
        assert(views(empty@) =~= Seq::<Seq<char>>::empty());
        assert(flat(Seq::<Seq<Seq<char>>>::empty()) =~= Seq::<Seq<char>>::empty());
        return empty;
    }
    let all = concat_blocks(blocks, current_index + 1, blocks.len());
    assert(block_views(blocks@).subrange(current_index + 1, blocks@.len() as int)
        =~= block_views(blocks@).skip(current_index + 1));
    keep_first(all, lines_needed)
}

/// Whole lyric lines above the active one: the `blocks_needed` lyric lines
/// before `current_index` (fewer near the start), all their wrapped lines.
pub fn collect_before_blocks(current_index: usize, blocks: &Vec<Vec<String>>, blocks_needed: usize) -> (r:
    Vec<String>)
    requires
        current_index <= blocks@.len() || blocks_needed == 0,
    ensures
        current_index <= blocks@.len() ==> views(r@) == flat(
            block_views(blocks@).subrange(
                if current_index >= blocks_needed {
                    current_index - blocks_needed
                } else {
                    0
                },
                current_index as int,
            ),
        ),
        blocks_needed == 0 ==> r@.len() == 0,
{
    if blocks_needed == 0 {
        let empty: Vec<String> = Vec::new();
        proof {
            if current_index <= blocks@.len() {
                assert(block_views(blocks@).subrange(current_index as int, current_index as int)
                    =~= Seq::<Seq<Seq<char>>>::empty());
            }
        }
        assert(views(empty@) =~= Seq::<Seq<char>>::empty());
        return empty;
    }
    let start = if current_index >= blocks_needed {
        current_index - blocks_needed
    } else {
        0
    };
    concat_blocks(blocks, start, current_index)
}

/// Whole lyric lines below the active one: the `blocks_needed` lyric lines
/// after `current_index` (fewer near the end), all their wrapped lines.
pub fn collect_after_blocks(current_index: usize, blocks: &Vec<Vec<String>>, blocks_needed: usize) -> (r:
    Vec<String>)
    ensures
        ({
            let end = if current_index + 1 + blocks_needed < blocks@.len() {
                current_index + 1 + blocks_needed
            } else {
                blocks@.len() as int
            };
            views(r@) == if current_index + 1 < end {
                flat(block_views(blocks@).subrange(current_index + 1, end))
            } else {
                Seq::empty()
            }
        }),
{
    let n = blocks.len();
    if current_index >= n || current_index + 1 >= n {
        let empty: Vec<String> = Vec::new();
        assert(views(empty@) =~= Seq::<Seq<char>>::empty());
        return empty;
    }
    let end = if blocks_needed < n - (current_index + 1) {
        current_index + 1 + blocks_needed
    } else {
        n
    };
    if current_index + 1 >= end {
        let empty: Vec<String> = Vec::new();
        assert(views(empty@) =~= Seq::<Seq<char>>::empty());
        return empty;
    }
    concat_blocks(blocks, current_index + 1, end)
}

/// The number of characters of each word's text.
pub open spec fn word_len(w: WordTiming) -> nat {
    w.text@.len()
}

/// Greedy line breaking of words, from word `i` on, with the current line
/// holding `current` (word indices) of `cur_len` characters: a word that
/// would make a non-empty line longer than `width` (when `width` is not 0)
/// starts a new line.
pub open spec fn break_words(
    words: Seq<WordTiming>,
    width: nat,
    i: int,
    current: Seq<usize>,
    cur_len: nat,
    done: Seq<Seq<usize>>,
) -> Seq<Seq<usize>>
    decreases words.len() - i,
{
    if i < 0 || i >= words.len() {
        let lines = if current.len() > 0 {
            done.push(current)
        } else {
            done
        };
        if lines.len() == 0 {
            seq![Seq::empty()]
        } else {
            lines
        }
    } else {
        let wlen = word_len(words[i]);
        let candidate = if current.len() == 0 {
            wlen
        } else {
            cur_len + 1 + wlen
        };
        if current.len() > 0 && candidate > width && width > 0 {
            break_words(words, width, i + 1, seq![i as usize], wlen, done.push(current))
        } else if current.len() == 0 {
            break_words(words, width, i + 1, seq![i as usize], wlen, done)
        } else {
            break_words(words, width, i + 1, current.push(i as usize), (cur_len + 1 + wlen) as nat, done)
        }
    }
}

/// The word indices `0, 1, .., n - 1`.
pub open spec fn indices_upto(n: int) -> Seq<usize> {
    Seq::new(n as nat, |k: int| k as usize)
}

/// The characters of the words a screen line lists.
pub open spec fn line_chars(words: Seq<WordTiming>, line: Seq<usize>) -> nat
    decreases line.len(),
{
    if line.len() == 0 {
        0
    } else {
        line_chars(words, line.drop_last()) + word_len(words[line.last() as int])
    }
}

/// How wide a screen line is: its words and one space between each two.
pub open spec fn line_width(words: Seq<WordTiming>, line: Seq<usize>) -> nat {
    if line.len() == 0 {
        0
    } else {
        (line_chars(words, line) + line.len() - 1) as nat
    }
}

/// Breaks the words of a line into screen lines at most `width` characters
/// wide where possible; each screen line lists its words' indices. There is
/// always at least one line: it is the single empty line exactly when there
/// are no words, and otherwise no line is empty. Read in order the lines
/// list every word once, in order. When `width` is not 0, a line of two or
/// more words is at most `width` wide (a word longer than `width` stands
/// alone on its line), and a line ends only where its next word would make
/// it wider than `width`.
pub fn split_words_into_lines(words: &Vec<WordTiming>, width: usize) -> (r: Vec<Vec<usize>>)
    ensures
        r@.map_values(|l: Vec<usize>| l@) == break_words(
            words@,
            width as nat,
            0,
            Seq::empty(),
            0,
            Seq::empty(),
        ),
        r@.map_values(|l: Vec<usize>| l@).flatten() == indices_upto(words@.len() as int),
        words@.len() == 0 <==> r@.map_values(|l: Vec<usize>| l@) == seq![Seq::<usize>::empty()],
        words@.len() > 0 ==> forall|a: int| 0 <= a < r@.len() ==> #[trigger] r@[a]@.len() > 0,
        width > 0 ==> forall|a: int|
            0 <= a < r@.len() && r@[a]@.len() >= 2 ==> line_width(words@, #[trigger] r@[a]@)
                <= width,
        width > 0 ==> forall|a: int|
            0 <= a < r@.len() - 1 ==> line_width(words@, (#[trigger] r@[a]@).push(r@[a + 1]@[0]))
                > width,
{
    let n = words.len();
    proof {
        lemma_break_words_laws(words@, width as nat);
    }
    // Lengths are kept exactly up to CAP, a bound far above any width, and
    // at CAP beyond it; comparisons with the width come out the same.
    let cap: u128 = 0x1_0000_0000_0000_0000_0000_0000u128;
    let mut lines: Vec<Vec<usize>> = Vec::new();
    let mut current: Vec<usize> = Vec::new();
    let mut cur_len: u128 = 0;
    let ghost mut g_len: nat = 0;
    let mut i: usize = 0;
    assert(lines@.map_values(|l: Vec<usize>| l@) =~= Seq::<Seq<usize>>::empty());
    assert(current@ =~= Seq::<usize>::empty());
    while i < n
        invariant
            n == words@.len(),
            i <= words@.len(),
            cap == 0x1_0000_0000_0000_0000_0000_0000u128,
            cur_len == (if g_len < cap {
                g_len
            } else {
                cap as nat
            }),
            break_words(words@, width as nat, 0, Seq::empty(), 0, Seq::empty()) == break_words(
                words@,
                width as nat,
                i as int,
                current@,
                g_len,
                lines@.map_values(|l: Vec<usize>| l@),
            ),
        decreases words@.len() - i,
    {
        let wlen_us = chars_of(words[i].text.as_str()).len();
        let wlen = wlen_us as u128;
        let ghost g_cand: nat = if current@.len() == 0 {
            wlen as nat
        } else {
            (g_len + 1 + wlen) as nat
        };
        let candidate = if current.len() == 0 {
            wlen
        } else if cur_len >= cap {
            cap
        } else {
            let c = cur_len + 1 + wlen;
            if c > cap {
                cap
            } else {
                c
            }
        };
        assert((candidate > width as u128) == (g_cand > width));
        let ghost done = lines@.map_values(|l: Vec<usize>| l@);
        if current.len() > 0 && candidate > width as u128 && width > 0 {
            let ghost old_lines = lines@;
            let ghost fin = current;
            lines.push(current);
            proof {
                lemma_map_push(old_lines, fin, |l: Vec<usize>| l@);
            }
            assert(lines@.map_values(|l: Vec<usize>| l@) =~= done.push(fin@));
            current = Vec::new();
            current.push(i);
            assert(current@ =~= seq![i]);
            cur_len = wlen;
            proof {
                g_len = wlen as nat;
            }
        } else if current.len() == 0 {
            current.push(i);
            assert(current@ =~= seq![i]);
            cur_len = wlen;
            proof {
                g_len = wlen as nat;
            }
        } else {
            current.push(i);
            cur_len = candidate;
            proof {
                g_len = g_cand;
            }
        }
        i = i + 1;
    }
    let ghost done = lines@.map_values(|l: Vec<usize>| l@);
    if current.len() > 0 {
        let ghost old_lines = lines@;
        let ghost fin = current;
        lines.push(current);
        proof {
            lemma_map_push(old_lines, fin, |l: Vec<usize>| l@);
        }
        assert(lines@.map_values(|l: Vec<usize>| l@) =~= done.push(fin@));
    }
    if lines.len() == 0 {
        lines.push(Vec::new());
        assert(lines@.map_values(|l: Vec<usize>| l@) =~= seq![Seq::<usize>::empty()]);
    }
    proof {
        let m = lines@.map_values(|l: Vec<usize>| l@);
        assert forall|a: int| 0 <= a < lines@.len() implies #[trigger] lines@[a]@ == m[a] by {}
    }
    lines
}

/// How far a word of the active line is highlighted.
#[derive(Debug, Clone, Copy, PartialEq, Eq, Structural)]
pub enum WordHighlight {
    /// Not reached yet.
    Upcoming,
    /// Sung entirely.
    Sung,
    /// Sung up to this byte offset of its text (a grapheme boundary).
    Partial(usize),
}

/// The number of graphemes of `w` highlighted at `position`: the elapsed
/// share of the word's time, rounded down, in graphemes.
pub open spec fn highlighted_graphemes(w: WordTiming, position: u64) -> int {
    let total = if w.grapheme_boundaries@.len() == 0 {
        0int
    } else {
        w.grapheme_boundaries@.len() - 1
    };
    ((position - w.start_ms) * total) / (w.end_ms - w.start_ms)
}

/// The highlight of word `w` at `position` (milliseconds): none before it
/// starts, full from its end on, and in between the share of its graphemes
/// that the elapsed time covers, split at a grapheme boundary.
pub open spec fn word_highlight_at(w: WordTiming, position: u64) -> WordHighlight {
    let total = if w.grapheme_boundaries@.len() == 0 {
        0int
    } else {
        w.grapheme_boundaries@.len() - 1
    };
    if position < w.start_ms {
        WordHighlight::Upcoming
    } else if position >= w.end_ms {
        WordHighlight::Sung
    } else {
        let h = highlighted_graphemes(w, position);
        if h == 0 {
            WordHighlight::Upcoming
        } else if h >= total {
            WordHighlight::Sung
        } else {
            WordHighlight::Partial(w.grapheme_boundaries@[h])
        }
    }
}

/// How far a word is highlighted at `position`.
pub fn word_highlight(w: &WordTiming, position: u64) -> (r: WordHighlight)
    ensures
        r == word_highlight_at(*w, position),
{
    if position < w.start_ms {
        return WordHighlight::Upcoming;
    }
    if position >= w.end_ms {
        return WordHighlight::Sung;
    }
    let total = w.grapheme_count();
    let elapsed = (position - w.start_ms) as u128;
    let dur = (w.end_ms - w.start_ms) as u128;
    assert(elapsed * (total as u128) <= 0xffff_ffff_ffff_ffff * 0xffff_ffff_ffff_ffff) by (
    nonlinear_arith)
        requires
            elapsed <= 0xffff_ffff_ffff_ffff,
            total <= 0xffff_ffff_ffff_ffff,
    ;
    let h = elapsed * (total as u128) / dur;
    if h == 0 {
        WordHighlight::Upcoming
    } else if h >= total as u128 {
        WordHighlight::Sung
    } else {
        WordHighlight::Partial(w.grapheme_boundaries[h as usize])
    }
}

/// One word of the active line as shown: its index in the line, its
/// highlight, and whether a space follows it.
#[derive(Debug, Clone, Copy, PartialEq, Eq)]
pub struct WordPiece {
    pub word: usize,
    pub highlight: WordHighlight,
    pub space_after: bool,
}

/// The active line's block as shown: word by word with highlighting, or its
/// wrapped lines in one style.
#[derive(Debug, Clone)]
pub enum CurrentBlock {
    Karaoke(Vec<Vec<WordPiece>>),
    Plain(Vec<String>, LineStyle),
}

/// What the display shows, top to bottom: lines above the active one (in
/// the past style), the active block, lines below (in the upcoming style).
#[derive(Debug, Clone)]
pub struct VisibleLines {
    pub before: Vec<String>,
    pub current: CurrentBlock,
    pub after: Vec<String>,
}

/// The screen lines of the active line's words at `position`: the words
/// broken into lines of `width`, each word with its highlight, a space after
/// every word but the last of its screen line.
pub open spec fn karaoke_lines_of(
    words: Seq<WordTiming>,
    width: nat,
    position: u64,
) -> Seq<Seq<WordPiece>> {
    break_words(words, width, 0, Seq::empty(), 0, Seq::empty()).map_values(
        |l: Seq<usize>|
            Seq::new(
                l.len(),
                |k: int|
                    WordPiece {
                        word: l[k],
                        highlight: word_highlight_at(words[l[k] as int], position),
                        space_after: k + 1 < l.len(),
                    },
            ),
    )
}

/// Builds the word-by-word lines of the active line.
pub fn karaoke_lines(words: &Vec<WordTiming>, width: usize, position: u64) -> (r: Vec<
    Vec<WordPiece>,
>)
    ensures
        r@.map_values(|l: Vec<WordPiece>| l@) == karaoke_lines_of(words@, width as nat, position),
        forall|a: int, k: int|
            0 <= a < r@.len() && 0 <= k < r@[a]@.len() ==> (#[trigger] r@[a]@[k]).word < words@.len()
                && r@[a]@[k].highlight == word_highlight_at(words@[r@[a]@[k].word as int], position),
{
    let lines = split_words_into_lines(words, width);
    let nwords = words.len();
    let ghost broken = lines@.map_values(|l: Vec<usize>| l@);
    proof {
        lemma_break_words_in_range(words@, width as nat, 0, Seq::empty(), 0, Seq::empty());
    }
    let mut out: Vec<Vec<WordPiece>> = Vec::new();
    let mut i: usize = 0;
    while i < lines.len()
        invariant
            i <= lines@.len(),
            broken == lines@.map_values(|l: Vec<usize>| l@),
            broken == break_words(words@, width as nat, 0, Seq::empty(), 0, Seq::empty()),
            forall|a: int, b: int|
                0 <= a < broken.len() && 0 <= b < broken[a].len() ==> #[trigger] broken[a][b]
                    < words@.len(),
            out@.map_values(|l: Vec<WordPiece>| l@) == karaoke_lines_of(
                words@,
                width as nat,
                position,
            ).take(i as int),
        decreases lines@.len() - i,
    {
        let line = &lines[i];
        assert(line@ == broken[i as int]);
        let mut pieces: Vec<WordPiece> = Vec::new();
        let mut k: usize = 0;
        while k < line.len()
            invariant
                k <= line@.len(),
                line@ == broken[i as int],
                forall|b: int| 0 <= b < line@.len() ==> #[trigger] line@[b] < words@.len(),
                pieces@ == karaoke_lines_of(words@, width as nat, position)[i as int].take(
                    k as int,
                ),
                i < broken.len(),
                broken == break_words(words@, width as nat, 0, Seq::empty(), 0, Seq::empty()),
            decreases line@.len() - k,
        {
            let idx = line[k];
            assert(idx < words@.len()) by {
                assert(line@[k as int] < words@.len());
            }
            let p = WordPiece {
                word: idx,
                highlight: word_highlight(&words[idx], position),
                space_after: k + 1 < line.len(),
            };
            pieces.push(p);
            assert(pieces@ =~= karaoke_lines_of(words@, width as nat, position)[i as int].take(
                k + 1,
            ));
            k = k + 1;
        }
        assert(pieces@ =~= karaoke_lines_of(words@, width as nat, position)[i as int]);
        let ghost old_out = out@;
        let ghost pv = pieces;
        out.push(pieces);
        proof {
            lemma_map_push(old_out, pv, |l: Vec<WordPiece>| l@);
        }
        assert(out@.map_values(|l: Vec<WordPiece>| l@) =~= karaoke_lines_of(
            words@,
            width as nat,
            position,
        ).take(i + 1));
        i = i + 1;
    }
    assert(karaoke_lines_of(words@, width as nat, position).take(i as int) =~= karaoke_lines_of(
        words@,
        width as nat,
        position,
    ));
    proof {
        lemma_karaoke_pieces(words@, width as nat, position);
        let kl = karaoke_lines_of(words@, width as nat, position);
        assert forall|a: int, k: int|
            0 <= a < out@.len() && 0 <= k < out@[a]@.len() implies (#[trigger] out@[a]@[k]).word
            < words@.len() && out@[a]@[k].highlight == word_highlight_at(
            words@[out@[a]@[k].word as int],
            position,
        ) by {
            assert(out@[a]@ == kl[a]);
        }
    }
    out
}

/// The laws of line breaking: the lines, read in order, list each word
/// once and in order; there is the single empty line exactly when there are
/// no words, and otherwise no empty line; with a width that is not 0, no
/// line of two or more words is wider than it, and a line ends only where
/// the next word would make it wider.
pub proof fn lemma_break_words_laws(words: Seq<WordTiming>, width: nat)
    requires
        words.len() <= usize::MAX,
    ensures
        ({
            let r = break_words(words, width, 0, Seq::empty(), 0, Seq::empty());
            &&& r.flatten() == indices_upto(words.len() as int)
            &&& (words.len() == 0 <==> r == seq![Seq::<usize>::empty()])
            &&& (words.len() > 0 ==> forall|a: int| 0 <= a < r.len() ==> #[trigger] r[a].len() > 0)
            &&& (width > 0 ==> forall|a: int|
                0 <= a < r.len() && r[a].len() >= 2 ==> line_width(words, #[trigger] r[a])
                    <= width)
            &&& (width > 0 ==> forall|a: int|
                0 <= a < r.len() - 1 ==> line_width(words, (#[trigger] r[a]).push(r[a + 1][0]))
                    > width)
        }),
{
    assert(Seq::<Seq<usize>>::empty().flatten() + Seq::<usize>::empty() =~= indices_upto(0));
    lemma_break_words_laws_from(words, width, 0, Seq::empty(), 0, Seq::empty());
}

/// The laws of line breaking, from word `i` on.
proof fn lemma_break_words_laws_from(
    words: Seq<WordTiming>,
    width: nat,
    i: int,
    current: Seq<usize>,
    cur_len: nat,
    done: Seq<Seq<usize>>,
)
    requires
        0 <= i <= words.len(),
        words.len() <= usize::MAX,
        done.flatten() + current == indices_upto(i),
        forall|a: int| 0 <= a < done.len() ==> #[trigger] done[a].len() > 0,
        (current.len() == 0) == (i == 0),
        i == 0 ==> done.len() == 0,
        current.len() > 0 ==> cur_len == line_width(words, current),
        width > 0 ==> forall|a: int|
            0 <= a < done.len() && done[a].len() >= 2 ==> line_width(words, #[trigger] done[a])
                <= width,
        width > 0 && current.len() >= 2 ==> cur_len <= width,
        width > 0 ==> forall|a: int|
            0 <= a < done.len() - 1 ==> line_width(words, (#[trigger] done[a]).push(done[a + 1][0]))
                > width,
        width > 0 && done.len() > 0 && current.len() > 0 ==> line_width(
            words,
            done.last().push(current[0]),
        ) > width,
    ensures
        ({
            let r = break_words(words, width, i, current, cur_len, done);
            &&& r.flatten() == indices_upto(words.len() as int)
            &&& (words.len() == 0 <==> r == seq![Seq::<usize>::empty()])
            &&& (words.len() > 0 ==> forall|a: int| 0 <= a < r.len() ==> #[trigger] r[a].len() > 0)
            &&& (width > 0 ==> forall|a: int|
                0 <= a < r.len() && r[a].len() >= 2 ==> line_width(words, #[trigger] r[a])
                    <= width)
            &&& (width > 0 ==> forall|a: int|
                0 <= a < r.len() - 1 ==> line_width(words, (#[trigger] r[a]).push(r[a + 1][0]))
                    > width)
        }),
    decreases words.len() - i,
{
    broadcast use Seq::lemma_flatten_push, Seq::lemma_flatten_singleton;

    let r = break_words(words, width, i, current, cur_len, done);
    if i >= words.len() {
        if i == 0 {
            assert(r == seq![Seq::<usize>::empty()]);
            assert(seq![Seq::<usize>::empty()].flatten() =~= indices_upto(0));
        } else {
            let lines = done.push(current);
            assert(r == lines);
            assert(lines.flatten() == done.flatten() + current);
            assert(r[r.len() - 1] == current);
            assert forall|a: int| 0 <= a < r.len() implies #[trigger] r[a].len() > 0 by {
                if a < done.len() {
                    assert(r[a] == done[a]);
                }
            }
            assert forall|a: int|
                width > 0 && 0 <= a < r.len() && r[a].len() >= 2 implies line_width(
                words,
                #[trigger] r[a],
            ) <= width by {
                if a < done.len() {
                    assert(r[a] == done[a]);
                }
            }
            assert forall|a: int|
                width > 0 && 0 <= a < r.len() - 1 implies line_width(
                words,
                (#[trigger] r[a]).push(r[a + 1][0]),
            ) > width by {
                assert(r[a] == done[a]);
                if a + 1 < done.len() {
                    assert(r[a + 1] == done[a + 1]);
                } else {
                    assert(r[a + 1] == current);
                }
            }
        }
    } else {
        let wlen = word_len(words[i]);
        let candidate = if current.len() == 0 {
            wlen
        } else {
            cur_len + 1 + wlen
        };
        let single = seq![i as usize];
        assert(single.drop_last() =~= Seq::<usize>::empty());
        assert(single.last() as int == i);
        assert(line_chars(words, Seq::<usize>::empty()) == 0);
        assert(line_width(words, single) == wlen);
        assert(indices_upto(i + 1) =~= indices_upto(i).push(i as usize));
        if current.len() > 0 && candidate > width && width > 0 {
            let d2 = done.push(current);
            assert(d2.flatten() + single =~= indices_upto(i + 1));
            assert forall|a: int| 0 <= a < d2.len() implies #[trigger] d2[a].len() > 0 by {
                if a < done.len() {
                    assert(d2[a] == done[a]);
                }
            }
            assert forall|a: int|
                width > 0 && 0 <= a < d2.len() && d2[a].len() >= 2 implies line_width(
                words,
                #[trigger] d2[a],
            ) <= width by {
                if a < done.len() {
                    assert(d2[a] == done[a]);
                }
            }
            assert forall|a: int|
                width > 0 && 0 <= a < d2.len() - 1 implies line_width(
                words,
                (#[trigger] d2[a]).push(d2[a + 1][0]),
            ) > width by {
                assert(d2[a] == done[a]);
                if a + 1 < done.len() {
                    assert(d2[a + 1] == done[a + 1]);
                } else {
                    assert(d2[a + 1] == current);
                }
            }
            let c2 = current.push(i as usize);
            assert(c2.drop_last() =~= current);
            assert(line_width(words, c2) == cur_len + 1 + wlen);
            assert(d2.last() == current);
            lemma_break_words_laws_from(words, width, i + 1, single, wlen, d2);
        } else if current.len() == 0 {
            assert(done.flatten() =~= Seq::<usize>::empty());
            assert(done.flatten() + single =~= indices_upto(i + 1));
            lemma_break_words_laws_from(words, width, i + 1, single, wlen, done);
        } else {
            let c2 = current.push(i as usize);
            assert(c2.drop_last() =~= current);
            assert(line_width(words, c2) == cur_len + 1 + wlen);
            assert(done.flatten() + c2 =~= indices_upto(i + 1));
            assert(c2[0] == current[0]);
            lemma_break_words_laws_from(
                words,
                width,
                i + 1,
                c2,
                (cur_len + 1 + wlen) as nat,
                done,
            );
        }
    }
}

/// Karaoke highlighting follows the words: the screen lines list the words
/// once each, in order (see `lemma_break_words_laws`), and every piece
/// shows the word it names, highlighted as that word is at `position`, with
/// a space after it unless it ends its screen line.
pub proof fn lemma_karaoke_pieces(words: Seq<WordTiming>, width: nat, position: u64)
    requires
        words.len() <= usize::MAX,
    ensures
        ({
            let r = karaoke_lines_of(words, width, position);
            let b = break_words(words, width, 0, Seq::empty(), 0, Seq::empty());
            &&& r.len() == b.len()
            &&& forall|a: int| 0 <= a < r.len() ==> (#[trigger] r[a]).len() == b[a].len()
            &&& forall|a: int, k: int|
                0 <= a < r.len() && 0 <= k < r[a].len() ==> {
                    let p = #[trigger] r[a][k];
                    &&& p.word == b[a][k]
                    &&& p.word < words.len()
                    &&& p.highlight == word_highlight_at(words[p.word as int], position)
                    &&& p.space_after == (k + 1 < r[a].len())
                }
        }),
{
    lemma_break_words_in_range(words, width, 0, Seq::empty(), 0, Seq::empty());
    let r = karaoke_lines_of(words, width, position);
    let b = break_words(words, width, 0, Seq::empty(), 0, Seq::empty());
    assert forall|a: int, k: int| 0 <= a < r.len() && 0 <= k < r[a].len() implies {
        let p = #[trigger] r[a][k];
        &&& p.word == b[a][k]
        &&& p.word < words.len()
        &&& p.highlight == word_highlight_at(words[p.word as int], position)
        &&& p.space_after == (k + 1 < r[a].len())
    } by {
        assert(b[a][k] < words.len());
    }
}

/// Line breaking lists only indices of existing words.
proof fn lemma_break_words_in_range(
    words: Seq<WordTiming>,
    width: nat,
    i: int,
    current: Seq<usize>,
    cur_len: nat,
    done: Seq<Seq<usize>>,
)
    requires
        0 <= i,
        words.len() <= usize::MAX,
        forall|b: int| 0 <= b < current.len() ==> #[trigger] current[b] < words.len(),
        forall|a: int, b: int|
            0 <= a < done.len() && 0 <= b < done[a].len() ==> #[trigger] done[a][b] < words.len(),
    ensures
        ({
            let r = break_words(words, width, i, current, cur_len, done);
            forall|a: int, b: int|
                0 <= a < r.len() && 0 <= b < r[a].len() ==> #[trigger] r[a][b] < words.len()
        }),
    decreases words.len() - i,
{
    if i >= words.len() {
        let lines = if current.len() > 0 {
            done.push(current)
        } else {
            done
        };
        assert forall|a: int, b: int|
            0 <= a < lines.len() && 0 <= b < lines[a].len() implies #[trigger] lines[a][b]
            < words.len() by {
            if a < done.len() {
                assert(lines[a] == done[a]);
            } else {
                assert(lines[a] == current);
            }
        }
        let r = break_words(words, width, i, current, cur_len, done);
        if lines.len() == 0 {
            assert(r == seq![Seq::<usize>::empty()]);
            assert forall|a: int, b: int|
                0 <= a < r.len() && 0 <= b < r[a].len() implies #[trigger] r[a][b]
                < words.len() by {
                assert(r[a].len() == 0);
            }
        } else {
            assert(r == lines);
        }
    } else {
        let wlen = word_len(words[i]);
        let candidate = if current.len() == 0 {
            wlen
        } else {
            cur_len + 1 + wlen
        };
        if current.len() > 0 && candidate > width && width > 0 {
            let d2 = done.push(current);
            assert forall|a: int, b: int|
                0 <= a < d2.len() && 0 <= b < d2[a].len() implies #[trigger] d2[a][b]
                < words.len() by {
                if a < done.len() {
                    assert(d2[a] == done[a]);
                } else {
                    assert(d2[a] == current);
                }
            }
            assert(seq![i as usize][0] < words.len());
            lemma_break_words_in_range(words, width, i + 1, seq![i as usize], wlen, d2);
            assert(break_words(words, width, i, current, cur_len, done) == break_words(
                words,
                width,
                i + 1,
                seq![i as usize],
                wlen,
                d2,
            ));
        } else if current.len() == 0 {
            assert(seq![i as usize][0] < words.len());
            lemma_break_words_in_range(words, width, i + 1, seq![i as usize], wlen, done);
            assert(break_words(words, width, i, current, cur_len, done) == break_words(
                words,
                width,
                i + 1,
                seq![i as usize],
                wlen,
                done,
            ));
        } else {
            let c2 = current.push(i as usize);
            assert forall|b: int| 0 <= b < c2.len() implies #[trigger] c2[b] < words.len() by {
                if b < current.len() {
                    assert(c2[b] == current[b]);
                }
            }
            lemma_break_words_in_range(
                words,
                width,
                i + 1,
                c2,
                (cur_len + 1 + wlen) as nat,
                done,
            );
            assert(break_words(words, width, i, current, cur_len, done) == break_words(
                words,
                width,
                i + 1,
                c2,
                (cur_len + 1 + wlen) as nat,
                done,
            ));
        }
    }
}

} // verus!
