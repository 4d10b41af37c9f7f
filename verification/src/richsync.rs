//! Musixmatch lyrics with timings: line-timed subtitles and word-timed
//! richsync.
//!
//! The JSON is decoded outside the library into the raw records below,
//! times converted to milliseconds; this module turns them into lyric lines,
//! deriving word end times and per-grapheme highlight times.

use vstd::prelude::*;
use vstd::utf8::encode_utf8;
use crate::text::{chars_of, char_is_ws, is_ws, string_from_chars, trim, trim_bounds};
use crate::types::{LyricLine, WordTiming};
use unicode_segmentation::UnicodeSegmentation;

verus! {

/// The most lines a richsync document yields; the rest are dropped.
pub const MAX_LYRIC_LINES: usize = 1000;

/// The most word (or character) entries one line yields.
pub const MAX_WORDS_PER_LINE: usize = 100;

/// Byte offsets at which `unicode-segmentation` starts the extended grapheme
/// clusters of a string.
pub uninterp spec fn grapheme_offsets(s: Seq<char>) -> Seq<usize>;

/// Byte offsets of the extended grapheme clusters of `text`
/// (`UnicodeSegmentation::grapheme_indices(text, true)`).
#[verifier::external_body]
fn grapheme_starts(text: &str) -> (r: Vec<usize>)
    ensures
        r@ == grapheme_offsets(text@),
{
    text.grapheme_indices(true).map(|(i, _)| i).collect()
}

/// `a + b`, or the largest `u64` when that does not fit.
pub open spec fn sat_add(a: u64, b: u64) -> u64 {
    if a + b > u64::MAX {
        u64::MAX
    } else {
        (a + b) as u64
    }
}

pub open spec fn max_u64(a: u64, b: u64) -> u64 {
    if a >= b {
        a
    } else {
        b
    }
}

/// Grapheme boundaries of `text` given the byte offsets at which its
/// graphemes start: 0, each later start, and the byte length of `text`.
pub open spec fn boundaries_from(offsets: Seq<usize>, text: Seq<char>) -> Seq<usize> {
    seq![0usize] + offsets.filter(|o: usize| o > 0) + seq![encode_utf8(text).len() as usize]
}

/// Grapheme boundaries of `text`.
pub open spec fn boundaries_of(text: Seq<char>) -> Seq<usize> {
    boundaries_from(grapheme_offsets(text), text)
}

/// Highlight time of grapheme `k` (from 1) of `total` in a word from `start`
/// to `end`: evenly spread over the word's duration.
pub open spec fn grapheme_time(start: u64, end: u64, k: int, total: int) -> u64 {
    let dur: int = if end > start {
        end - start
    } else {
        0
    };
    (start + (k * dur) / total) as u64
}

/// A word's grapheme data follow from its times and the boundaries `b`:
/// those boundaries, and each grapheme after the first highlighted at its
/// share of the word's duration.
pub open spec fn timed_with(w: WordTiming, b: Seq<usize>) -> bool {
    let total = b.len() - 1;
    &&& w.grapheme_boundaries@ == b
    &&& w.grapheme_times_ms@.len() == total - 1
    &&& forall|k: int|
        1 <= k < total ==> #[trigger] w.grapheme_times_ms@[k - 1] == grapheme_time(
            w.start_ms,
            w.end_ms,
            k,
            total,
        )
}

/// A word's grapheme data follow from its times and text.
pub open spec fn timing_consistent(w: WordTiming) -> bool {
    timed_with(w, boundaries_of(w.text@))
}

/// `w` is the word from `start` to `end` with `text`, its grapheme data
/// derived from them.
pub open spec fn is_word(w: WordTiming, t: (u64, u64, Seq<char>)) -> bool {
    w.start_ms == t.0 && w.end_ms == t.1 && w.text@ == t.2 && timing_consistent(w)
}

proof fn lemma_time_bound(start: u64, end: u64, k: int, total: int)
    requires
        1 <= k < total,
    ensures
        start + (k * (if end > start { end - start } else { 0int })) / total <= (if end > start {
            end as int
        } else {
            start as int
        }),
{
    let dur: int = if end > start {
        end - start
    } else {
        0
    };
    assert(k * dur <= total * dur) by (nonlinear_arith)
        requires
            k < total,
            dur >= 0,
    ;
    assert((k * dur) / total <= dur) by (nonlinear_arith)
        requires
            k * dur <= total * dur,
            total > 0,
            dur >= 0,
            k * dur >= 0,
    ;
}

/// Builds a word with its grapheme boundaries and the time at which each
/// grapheme after the first is highlighted.
pub fn create_word_timing(start_ms: u64, end_ms: u64, text: String) -> (r: WordTiming)
    ensures
        is_word(r, (start_ms, end_ms, text@)),
{
    let offsets = grapheme_starts(text.as_str());
    word_timing_from_offsets(start_ms, end_ms, text, &offsets)
}

/// Builds a word from its times, its text and the byte offsets at which its
/// graphemes start: the boundaries are 0, the later starts and the byte
/// length; grapheme `k` of `n` is highlighted `k / n` of the way through the
/// word.
pub fn word_timing_from_offsets(start_ms: u64, end_ms: u64, text: String, offsets: &Vec<usize>) -> (r:
    WordTiming)
    ensures
        r.start_ms == start_ms,
        r.end_ms == end_ms,
        r.text@ == text@,
        timed_with(r, boundaries_from(offsets@, text@)),
{
    let mut boundaries: Vec<usize> = Vec::new();
    boundaries.push(0);
    let ghost pred = |o: usize| o > 0;
    let mut i: usize = 0;
    while i < offsets.len()
        invariant
            0 <= i <= offsets@.len(),
            boundaries@ == seq![0usize] + offsets@.take(i as int).filter(pred),
            pred == (|o: usize| o > 0),
        decreases offsets@.len() - i,
    {
        proof {
            assert(offsets@.take(i + 1) =~= offsets@.take(i as int).push(offsets@[i as int]));
            offsets@.take(i as int).lemma_filter_push(offsets@[i as int], pred);
        }
        if offsets[i] > 0 {
            boundaries.push(offsets[i]);
        }
        i = i + 1;
        assert(boundaries@ =~= seq![0usize] + offsets@.take(i as int).filter(pred));
    }
    assert(offsets@.take(i as int) =~= offsets@);
    boundaries.push(text.as_str().len());
    assert(boundaries@ =~= boundaries_from(offsets@, text@));
    let total = boundaries.len() - 1;
    let dur: u64 = if end_ms > start_ms {
        end_ms - start_ms
    } else {
        0
    };
    let mut times: Vec<u64> = Vec::new();
    let mut k: usize = 1;
    while k < total
        invariant
            1 <= k,
            k <= total || total == 0,
            total == boundaries@.len() - 1,
            total >= 1,
            dur == (if end_ms > start_ms {
                end_ms - start_ms
            } else {
                0
            }),
            times@.len() == k - 1,
            forall|j: int|
                1 <= j < k ==> #[trigger] times@[j - 1] == grapheme_time(
                    start_ms,
                    end_ms,
                    j,
                    total as int,
                ),
        decreases total - k,
    {
        proof {
            lemma_time_bound(start_ms, end_ms, k as int, total as int);
            assert((k as u128) * (dur as u128) <= u128::MAX) by (nonlinear_arith)
                requires
                    k <= usize::MAX,
                    dur <= u64::MAX,
            ;
        }
        let step: u128 = ((k as u128) * (dur as u128)) / (total as u128);
        let t: u64 = (start_ms as u128 + step) as u64;
        times.push(t);
        k = k + 1;
    }
    WordTiming {
        start_ms,
        end_ms,
        text,
        grapheme_boundaries: boundaries,
        grapheme_times_ms: times,
    }
}


/// One entry of a richsync `words` array (times in milliseconds).
#[derive(Debug, Clone, Default)]
pub struct RawWord {
    pub start: Option<u64>,
    pub end: Option<u64>,
    pub text: Option<String>,
}

/// One entry of a richsync `l` array: a piece of text and its offset in
/// milliseconds from the line start.
#[derive(Debug, Clone, Default)]
pub struct RawChar {
    pub c: Option<String>,
    pub o: Option<u64>,
}

/// One line of a richsync document (times in milliseconds).
#[derive(Debug, Clone, Default)]
pub struct RawRichsyncLine {
    /// `ts`: line start.
    pub ts: Option<u64>,
    /// `te`: line end.
    pub te: Option<u64>,
    /// The line text: `x`, or `text` when `x` is absent.
    pub text: Option<String>,
    /// The `words` array, when present.
    pub words: Option<Vec<RawWord>>,
    /// The `l` array, when present.
    pub chars: Option<Vec<RawChar>>,
}

/// One line of a subtitle document.
#[derive(Debug, Clone, Default)]
pub struct RawSubtitleLine {
    /// `time.total`, in milliseconds.
    pub total: Option<u64>,
    pub text: Option<String>,
}

pub open spec fn opt_text(t: Option<String>) -> Seq<char> {
    match t {
        Some(s) => s@,
        None => Seq::empty(),
    }
}

/// The word an entry of a `words` array describes: missing starts take the
/// line start, missing ends the word start, and an end not after the start
/// is replaced by the line end.
pub open spec fn explicit_word(w: RawWord, line_start: u64, line_end: u64) -> (u64, u64, Seq<char>) {
    let start = match w.start {
        Some(s) => s,
        None => line_start,
    };
    let end = match w.end {
        Some(e) => e,
        None => start,
    };
    (start, if end <= start {
        line_end
    } else {
        end
    }, opt_text(w.text))
}

/// Whether the words of `r` are `expected`, in order.
pub open spec fn words_are(r: Seq<WordTiming>, expected: Seq<(u64, u64, Seq<char>)>) -> bool {
    r.len() == expected.len() && forall|i: int| 0 <= i < r.len() ==> is_word(#[trigger] r[i], expected[i])
}

fn text_or_empty(t: &Option<String>) -> (r: String)
    ensures
        r@ == opt_text(*t),
{
    match t {
        Some(s) => s.clone(),
        None => String::new(),
    }
}

/// Words from a `words` array: one per entry, none at all when empty.
pub fn parse_explicit_word_array(words: &[RawWord], line_start: u64, line_end: u64) -> (r: Option<Vec<WordTiming>>)
    ensures
        match r {
            Some(ws) => words@.len() > 0 && words_are(ws@, words@.map_values(|w: RawWord| explicit_word(w, line_start, line_end))),
            None => words@.len() == 0,
        },
{
    let ghost expected = words@.map_values(|w: RawWord| explicit_word(w, line_start, line_end));
    let mut out: Vec<WordTiming> = Vec::new();
    let mut i: usize = 0;
    while i < words.len()
        invariant
            0 <= i <= words@.len(),
            expected == words@.map_values(|w: RawWord| explicit_word(w, line_start, line_end)),
            out@.len() == i,
            forall|j: int| 0 <= j < i ==> is_word(#[trigger] out@[j], expected[j]),
        decreases words@.len() - i,
    {
        let w = &words[i];
        let start = match w.start {
            Some(s) => s,
            None => line_start,
        };
        let end = match w.end {
            Some(e) => e,
            None => start,
        };
        let final_end = if end <= start {
            line_end
        } else {
            end
        };
        out.push(create_word_timing(start, final_end, text_or_empty(&w.text)));
        i = i + 1;
    }
    if out.len() == 0 {
        None
    } else {
        Some(out)
    }
}

/// An `l` entry holds no word: its text is absent or white space only.
pub open spec fn blank(c: Option<String>) -> bool {
    match c {
        Some(t) => trim(t@).len() == 0,
        None => true,
    }
}

/// The offset of the first entry at or after `j` that holds a word (absent
/// when that entry has no offset, or when there is no such entry).
pub open spec fn next_word_offset(chars: Seq<RawChar>, j: int) -> Option<u64>
    decreases chars.len() - j,
{
    if j < 0 || j >= chars.len() {
        None
    } else if !blank(chars[j].c) {
        chars[j].o
    } else {
        next_word_offset(chars, j + 1)
    }
}

/// The word that entry `i` of an `l` array describes. It starts at its
/// offset. It ends where the next entry starts, or, when the next word
/// starts at most 400 ms after that, where the next word starts; with no
/// following entry it ends with the line. It lasts at least 40 ms, and an
/// end not after the start is replaced by the line end.
pub open spec fn char_word(chars: Seq<RawChar>, i: int, line_start: u64, line_end: u64) -> (u64, u64, Seq<char>) {
    let off = match chars[i].o {
        Some(o) => o,
        None => 0,
    };
    let start = sat_add(line_start, off);
    let imm = if i + 1 < chars.len() {
        chars[i + 1].o
    } else {
        None
    };
    let nw = next_word_offset(chars, i + 1);
    let end = match (imm, nw) {
        (Some(a), Some(b)) => {
            let at = sat_add(line_start, a);
            let bt = sat_add(line_start, b);
            if bt <= at + 400 {
                bt
            } else {
                at
            }
        },
        (Some(a), None) => sat_add(line_start, a),
        (None, Some(b)) => sat_add(line_start, b),
        (None, None) => line_end,
    };
    let min_end = sat_add(start, 40);
    let fin = if end <= start {
        max_u64(line_end, min_end)
    } else {
        max_u64(end, min_end)
    };
    (start, fin, opt_text(chars[i].c))
}

/// The words of the entries from `i` on that hold one.
pub open spec fn char_words_from(chars: Seq<RawChar>, i: int, line_start: u64, line_end: u64) -> Seq<(u64, u64, Seq<char>)>
    decreases chars.len() - i,
{
    if i < 0 || i >= chars.len() {
        Seq::empty()
    } else {
        let rest = char_words_from(chars, i + 1, line_start, line_end);
        if blank(chars[i].c) {
            rest
        } else {
            seq![char_word(chars, i, line_start, line_end)] + rest
        }
    }
}

/// How many entries from `t` up to (not including) `i` hold a word.
pub open spec fn words_in(chars: Seq<RawChar>, t: int, i: int) -> nat
    decreases i - t,
{
    if t >= i || t < 0 {
        0
    } else {
        (if blank(chars[t].c) {
            0nat
        } else {
            1nat
        }) + words_in(chars, t + 1, i)
    }
}

/// The word of entry `i` comes after the words of the entries before it.
proof fn lemma_word_position(chars: Seq<RawChar>, t: int, i: int, line_start: u64, line_end: u64)
    requires
        0 <= t <= i < chars.len(),
        !blank(chars[i].c),
    ensures
        words_in(chars, t, i) < char_words_from(chars, t, line_start, line_end).len(),
        char_words_from(chars, t, line_start, line_end)[words_in(chars, t, i) as int] == char_word(
            chars,
            i,
            line_start,
            line_end,
        ),
    decreases i - t,
{
    if t < i {
        lemma_word_position(chars, t + 1, i, line_start, line_end);
    }
}

/// The first entry holding a word after `i` is `j` when every entry between
/// them is blank.
proof fn lemma_next_word_at(chars: Seq<RawChar>, k: int, j: int)
    requires
        0 <= k <= j < chars.len(),
        !blank(chars[j].c),
        forall|m: int| k <= m < j ==> blank(#[trigger] chars[m].c),
    ensures
        next_word_offset(chars, k) == chars[j].o,
    decreases j - k,
{
    if k < j {
        lemma_next_word_at(chars, k + 1, j);
    }
}

/// Pauses between words are kept: a word at offset `o` followed by an entry
/// at offset `a` (the space after it) and by the next word at offset `b`
/// ends when the next word starts if the gap `b - a` is at most 400 ms (the
/// words run together), else where the following entry starts, leaving the
/// pause unlit. This is the word that `parse_character_array` gives at the
/// position `words_in(chars, 0, i)` (see its `words_are`).
pub proof fn lemma_word_end_keeps_pauses(
    chars: Seq<RawChar>,
    i: int,
    j: int,
    line_start: u64,
    line_end: u64,
    o: u64,
    a: u64,
    b: u64,
)
    requires
        0 <= i < j < chars.len(),
        !blank(chars[i].c),
        !blank(chars[j].c),
        forall|m: int| i < m < j ==> blank(#[trigger] chars[m].c),
        chars[i].o == Some(o),
        chars[i + 1].o == Some(a),
        chars[j].o == Some(b),
        o + 40 <= a <= b,
        line_start + b <= u64::MAX,
    ensures
        ({
            let w = char_words_from(chars, 0, line_start, line_end);
            let k = words_in(chars, 0, i) as int;
            &&& k < w.len()
            &&& w[k].0 == line_start + o
            &&& w[k].1 == if b - a <= 400 {
                line_start + b
            } else {
                line_start + a
            }
        }),
{
    lemma_word_position(chars, 0, i, line_start, line_end);
    lemma_next_word_at(chars, i + 1, j);
}

fn is_blank(c: &Option<String>) -> (r: bool)
    ensures
        r == blank(*c),
{
    match c {
        Some(t) => {
            let v = chars_of(t.as_str());
            let (lo, hi) = trim_bounds(v.as_slice(), 0, v.len());
            assert(v@.subrange(0, v@.len() as int) =~= v@);
            lo == hi
        },
        None => true,
    }
}

fn add_sat(a: u64, b: u64) -> (r: u64)
    ensures
        r == sat_add(a, b),
{
    a.checked_add(b).unwrap_or(u64::MAX)
}

fn next_word_offset_exec(chars: &[RawChar], from: usize) -> (r: Option<u64>)
    requires
        from <= chars@.len(),
    ensures
        r == next_word_offset(chars@, from as int),
{
    let mut j = from;
    while j < chars.len()
        invariant
            from <= j <= chars@.len(),
            next_word_offset(chars@, j as int) == next_word_offset(chars@, from as int),
        decreases chars@.len() - j,
    {
        if !is_blank(&chars[j].c) {
            return chars[j].o;
        }
        j = j + 1;
    }
    None
}

/// Words from an `l` array: one per entry that holds a word, none at all
/// when no entry does.
pub fn parse_character_array(chars: &[RawChar], line_start: u64, line_end: u64) -> (r: Option<Vec<WordTiming>>)
    ensures
        match r {
            Some(ws) => ws@.len() > 0 && words_are(ws@, char_words_from(chars@, 0, line_start, line_end)),
            None => char_words_from(chars@, 0, line_start, line_end).len() == 0,
        },
{
    let ghost all = char_words_from(chars@, 0, line_start, line_end);
    let mut out: Vec<WordTiming> = Vec::new();
    let ghost mut made: Seq<(u64, u64, Seq<char>)> = Seq::empty();
    let mut i: usize = 0;
    while i < chars.len()
        invariant
            0 <= i <= chars@.len(),
            all == char_words_from(chars@, 0, line_start, line_end),
            made + char_words_from(chars@, i as int, line_start, line_end) == all,
            words_are(out@, made),
        decreases chars@.len() - i,
    {
        let elem = &chars[i];
        if is_blank(&elem.c) {
            i = i + 1;
            continue;
        }
        let off = match elem.o {
            Some(o) => o,
            None => 0,
        };
        let start = add_sat(line_start, off);
        let imm = if i + 1 < chars.len() {
            chars[i + 1].o
        } else {
            None
        };
        let nw = next_word_offset_exec(chars, i + 1);
        let end = match (imm, nw) {
            (Some(a), Some(b)) => {
                let at = add_sat(line_start, a);
                let bt = add_sat(line_start, b);
                if bt as u128 <= at as u128 + 400 {
                    bt
                } else {
                    at
                }
            },
            (Some(a), None) => add_sat(line_start, a),
            (None, Some(b)) => add_sat(line_start, b),
            (None, None) => line_end,
        };
        let min_end = add_sat(start, 40);
        let fin = if end <= start {
            if line_end >= min_end {
                line_end
            } else {
                min_end
            }
        } else {
            if end >= min_end {
                end
            } else {
                min_end
            }
        };
        let ghost w = char_word(chars@, i as int, line_start, line_end);
        assert(w == (start, fin, opt_text(elem.c)));
        out.push(create_word_timing(start, fin, text_or_empty(&elem.c)));
        proof {
            assert(seq![w] + char_words_from(chars@, i + 1, line_start, line_end)
                == char_words_from(chars@, i as int, line_start, line_end));
            assert(made.push(w) + char_words_from(chars@, i + 1, line_start, line_end) =~= made
                + (seq![w] + char_words_from(chars@, i + 1, line_start, line_end)));
            made = made.push(w);
        }
        i = i + 1;
    }
    assert(made + char_words_from(chars@, i as int, line_start, line_end) =~= made);
    if out.len() == 0 {
        None
    } else {
        Some(out)
    }
}


/// The text of a line: its own, or a note sign when it has none.
pub open spec fn line_text(t: Option<String>) -> Seq<char> {
    match t {
        Some(s) => s@,
        None => "\u{266a}"@,
    }
}

fn line_text_exec(t: Option<String>) -> (r: String)
    ensures
        r@ == line_text(t),
{
    match t {
        Some(s) => s,
        None => {
            let v = chars_of("\u{266a}");
            string_from_chars(v.as_slice())
        },
    }
}

pub open spec fn min_usize(a: int, b: int) -> int {
    if a <= b {
        a
    } else {
        b
    }
}

/// Start of a richsync line: `ts`, else 0.
pub open spec fn rich_start(l: RawRichsyncLine) -> u64 {
    match l.ts {
        Some(t) => t,
        None => 0,
    }
}

/// End of a richsync line: `te`, else three seconds after its start.
pub open spec fn rich_end(l: RawRichsyncLine) -> u64 {
    match l.te {
        Some(t) => t,
        None => sat_add(rich_start(l), 3000),
    }
}

/// The word timings a richsync line yields: from its `words` array when it
/// has one, else from its `l` array, each cut to its first
/// [`MAX_WORDS_PER_LINE`] entries.
pub open spec fn rich_words_ok(l: RawRichsyncLine, words: Option<Vec<WordTiming>>) -> bool {
    let s = rich_start(l);
    let e = rich_end(l);
    match l.words {
        Some(ws) => {
            let kept = ws@.take(min_usize(ws@.len() as int, MAX_WORDS_PER_LINE as int));
            match words {
                Some(r) => kept.len() > 0 && words_are(r@, kept.map_values(|w: RawWord| explicit_word(w, s, e))),
                None => kept.len() == 0,
            }
        },
        None => match l.chars {
            Some(cs) => {
                let kept = cs@.take(min_usize(cs@.len() as int, MAX_WORDS_PER_LINE as int));
                match words {
                    Some(r) => r@.len() > 0 && words_are(r@, char_words_from(kept, 0, s, e)),
                    None => char_words_from(kept, 0, s, e).len() == 0,
                }
            },
            None => words is None,
        },
    }
}

/// The lyric line a richsync line yields.
pub open spec fn is_rich_line(r: LyricLine, l: RawRichsyncLine) -> bool {
    r.time_ms == rich_start(l) && r.text@ == line_text(l.text) && rich_words_ok(l, r.words)
}

/// Turns one richsync line into a lyric line with word timings.
pub fn richsync_line(l: RawRichsyncLine) -> (r: LyricLine)
    ensures
        is_rich_line(r, l),
{
    let start = match l.ts {
        Some(t) => t,
        None => 0,
    };
    let end = match l.te {
        Some(t) => t,
        None => add_sat(start, 3000),
    };
    let words = match &l.words {
        Some(ws) => {
            let n = if ws.len() < MAX_WORDS_PER_LINE {
                ws.len()
            } else {
                MAX_WORDS_PER_LINE
            };
            let kept = vstd::slice::slice_subrange(ws.as_slice(), 0, n);
            assert(kept@ =~= ws@.take(n as int));
            parse_explicit_word_array(kept, start, end)
        },
        None => match &l.chars {
            Some(cs) => {
                let n = if cs.len() < MAX_WORDS_PER_LINE {
                    cs.len()
                } else {
                    MAX_WORDS_PER_LINE
                };
                let kept = vstd::slice::slice_subrange(cs.as_slice(), 0, n);
                assert(kept@ =~= cs@.take(n as int));
                parse_character_array(kept, start, end)
            },
            None => None,
        },
    };
    LyricLine { time_ms: start, text: line_text_exec(l.text), words }
}

/// Turns a richsync document into lyric lines, one per line, keeping at
/// most [`MAX_LYRIC_LINES`].
pub fn richsync_lines(lines: Vec<RawRichsyncLine>) -> (r: Vec<LyricLine>)
    ensures
        r@.len() == min_usize(lines@.len() as int, MAX_LYRIC_LINES as int),
        forall|i: int| 0 <= i < r@.len() ==> is_rich_line(#[trigger] r@[i], lines@[i]),
{
    let ghost input = lines@;
    let n = if lines.len() < MAX_LYRIC_LINES {
        lines.len()
    } else {
        MAX_LYRIC_LINES
    };
    let mut rest = lines;
    rest.truncate(n);
    let mut pending: Vec<RawRichsyncLine> = Vec::new();
    while rest.len() > 0
        invariant
            pending@.len() + rest@.len() == n,
            n <= input.len(),
            forall|i: int| 0 <= i < rest@.len() ==> #[trigger] rest@[i] == input[i],
            forall|i: int| 0 <= i < pending@.len() ==> #[trigger] pending@[i] == input[n - 1 - i],
        decreases rest@.len(),
    {
        let x = rest.pop().unwrap();
        pending.push(x);
    }
    let mut out: Vec<LyricLine> = Vec::new();
    while pending.len() > 0
        invariant
            out@.len() + pending@.len() == n,
            n <= input.len(),
            forall|i: int| 0 <= i < pending@.len() ==> #[trigger] pending@[i] == input[n - 1 - i],
            forall|i: int| 0 <= i < out@.len() ==> is_rich_line(#[trigger] out@[i], input[i]),
        decreases pending@.len(),
    {
        let x = pending.pop().unwrap();
        out.push(richsync_line(x));
    }
    out
}

/// Time of a subtitle line: `time.total`, else 0.
pub open spec fn subtitle_time(l: RawSubtitleLine) -> u64 {
    match l.total {
        Some(t) => t,
        None => 0,
    }
}

/// Turns a subtitle document into lyric lines without word timings, one per
/// line.
pub fn subtitle_lines(lines: Vec<RawSubtitleLine>) -> (r: Vec<LyricLine>)
    ensures
        r@.len() == lines@.len(),
        forall|i: int|
            0 <= i < r@.len() ==> (#[trigger] r@[i]).time_ms == subtitle_time(lines@[i]) && r@[i].text@
                == line_text(lines@[i].text) && r@[i].words is None,
{
    let ghost input = lines@;
    let n = lines.len();
    let mut rest = lines;
    let mut pending: Vec<RawSubtitleLine> = Vec::new();
    while rest.len() > 0
        invariant
            pending@.len() + rest@.len() == n,
            n == input.len(),
            forall|i: int| 0 <= i < rest@.len() ==> #[trigger] rest@[i] == input[i],
            forall|i: int| 0 <= i < pending@.len() ==> #[trigger] pending@[i] == input[n - 1 - i],
        decreases rest@.len(),
    {
        let x = rest.pop().unwrap();
        pending.push(x);
    }
    let mut out: Vec<LyricLine> = Vec::new();
    while pending.len() > 0
        invariant
            out@.len() + pending@.len() == n,
            n == input.len(),
            forall|i: int| 0 <= i < pending@.len() ==> #[trigger] pending@[i] == input[n - 1 - i],
            forall|i: int|
                0 <= i < out@.len() ==> (#[trigger] out@[i]).time_ms == subtitle_time(input[i])
                    && out@[i].text@ == line_text(input[i].text) && out@[i].words is None,
        decreases pending@.len(),
    {
        let x = pending.pop().unwrap();
        let time = match x.total {
            Some(t) => t,
            None => 0,
        };
        out.push(LyricLine { time_ms: time, text: line_text_exec(x.text), words: None });
    }
    out
}

} // verus!
