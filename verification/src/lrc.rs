//! The LRC lyric format: lines of text preceded by one or more `[mm:ss.cc]`
//! time tags.
//!
//! A time tag is `[`, one or two decimal digits of minutes, `:`, exactly two
//! digits of seconds, `.`, one or two digits of hundredths, `]`. "Decimal
//! digit" is the Unicode `Nd` class that `\d` matches in the `regex` crate;
//! a group that holds a digit outside `0`-`9` counts as zero, since its
//! numeric value cannot be read. All tags are removed from a line, the rest
//! is trimmed, and one entry is produced per tag when that rest is not
//! empty. Times are in milliseconds.

use vstd::prelude::*;
use crate::text::{is_ws, trim, trim_bounds, string_from_chars, chars_of};
use crate::types::LyricLine;

verus! {

/// Whether the `regex` crate's `\d` class matches `c` (Unicode `Nd`).
pub uninterp spec fn unicode_decimal_digit(c: char) -> bool;

/// Asks the `regex` crate whether `\d` matches the single character `c`.
#[verifier::external_body]
fn regex_decimal_digit(c: char) -> (r: bool)
    ensures
        r == unicode_decimal_digit(c),
{
    let mut buf = [0u8; 4];
    match regex::Regex::new(r"\A\d\z") {
        Ok(re) => re.is_match(c.encode_utf8(&mut buf)),
        Err(_) => false,
    }
}

pub open spec fn is_ascii_digit(c: char) -> bool {
    '0' <= c && c <= '9'
}

/// A character that a tag accepts as a digit: the ASCII digits, and beyond
/// ASCII whatever the Unicode `Nd` class holds.
pub open spec fn is_tag_digit(c: char) -> bool {
    is_ascii_digit(c) || ((c as u32) >= 128 && unicode_decimal_digit(c))
}

fn tag_digit(c: char) -> (r: bool)
    ensures
        r == is_tag_digit(c),
{
    if '0' <= c && c <= '9' {
        true
    } else if (c as u32) < 128 {
        false
    } else {
        regex_decimal_digit(c)
    }
}

pub open spec fn digit_value(c: char) -> nat {
    (c as u32 - '0' as u32) as nat
}

/// The number that a group of one or two digits reads as: its decimal value
/// when all its digits are ASCII, else zero.
pub open spec fn group_value(s: Seq<char>, i: int, len: int) -> nat {
    if len == 1 {
        if is_ascii_digit(s[i]) {
            digit_value(s[i])
        } else {
            0
        }
    } else {
        if is_ascii_digit(s[i]) && is_ascii_digit(s[i + 1]) {
            10 * digit_value(s[i]) + digit_value(s[i + 1])
        } else {
            0
        }
    }
}

pub open spec fn digit_at(s: Seq<char>, i: int) -> bool {
    0 <= i < s.len() && is_tag_digit(s[i])
}

pub open spec fn char_at(s: Seq<char>, i: int, c: char) -> bool {
    0 <= i < s.len() && s[i] == c
}

/// Length of the minutes group of a tag starting at `i`.
pub open spec fn minutes_len(s: Seq<char>, i: int) -> int {
    if digit_at(s, i + 2) {
        2
    } else {
        1
    }
}

/// Length of the hundredths group that starts at `q`.
pub open spec fn centi_len(s: Seq<char>, q: int) -> int {
    if digit_at(s, q + 1) {
        2
    } else {
        1
    }
}

/// The time tag that starts at index `i` of `s`, if one does: its length
/// and its time in milliseconds.
pub open spec fn tag_at(s: Seq<char>, i: int) -> Option<(nat, nat)> {
    let m = minutes_len(s, i);
    let p = i + 2 + m;
    let q = p + 3;
    let c = centi_len(s, q);
    if 0 <= i && char_at(s, i, '[') && digit_at(s, i + 1) && char_at(s, i + 1 + m, ':')
        && digit_at(s, p) && digit_at(s, p + 1) && char_at(s, p + 2, '.') && digit_at(s, q)
        && char_at(s, q + c, ']') {
        Some(
            (
                (q + c + 1 - i) as nat,
                group_value(s, i + 1, m) * 60000 + group_value(s, p, 2) * 1000 + group_value(
                    s,
                    q,
                    c,
                ) * 10,
            ),
        )
    } else {
        None
    }
}

/// Scans `s` from index `i`: the text with every tag removed, and the times
/// of the tags, in order.
pub open spec fn scan(s: Seq<char>, i: int) -> (Seq<char>, Seq<nat>)
    decreases s.len() - i,
{
    if i < 0 || i >= s.len() {
        (Seq::empty(), Seq::empty())
    } else {
        match tag_at(s, i) {
            Some((n, t)) => {
                let r = scan(s, i + n);
                (r.0, seq![t] + r.1)
            },
            None => {
                let r = scan(s, i + 1);
                (seq![s[i]] + r.0, r.1)
            },
        }
    }
}

/// The entries `(time, text)` that one line (without its line ending)
/// yields.
pub open spec fn line_entries(line: Seq<char>) -> Seq<(nat, Seq<char>)> {
    let r = scan(line, 0);
    let text = trim(r.0);
    if r.1.len() == 0 || text.len() == 0 {
        Seq::empty()
    } else {
        r.1.map_values(|t: nat| (t, text))
    }
}

/// Index of the first `'\n'` at or after `i`, or the length of `s`.
pub open spec fn line_end(s: Seq<char>, i: int) -> int
    decreases s.len() - i,
{
    if i < 0 || i >= s.len() {
        s.len() as int
    } else if s[i] == '\n' {
        i
    } else {
        line_end(s, i + 1)
    }
}

/// The content of the line that starts at `i`, as `str::lines` gives it:
/// up to the next `'\n'`, without one `'\r'` before that `'\n'`.
pub open spec fn line_content_end(s: Seq<char>, i: int) -> int {
    let j = line_end(s, i);
    if j < s.len() && j > i && s[j - 1] == '\r' {
        j - 1
    } else {
        j
    }
}

/// The entries of all lines from index `i` on.
pub open spec fn entries_from(s: Seq<char>, i: int) -> Seq<(nat, Seq<char>)>
    decreases s.len() - i,
{
    if i < 0 || i >= s.len() {
        Seq::empty()
    } else {
        let j = line_end(s, i);
        proof {
            lemma_line_end_bounds(s, i);
        }
        let here = line_entries(s.subrange(i, line_content_end(s, i)));
        if j >= s.len() {
            here
        } else {
            here + entries_from(s, j + 1)
        }
    }
}

/// The entries of a whole LRC document.
pub open spec fn lrc_entries(s: Seq<char>) -> Seq<(nat, Seq<char>)> {
    entries_from(s, 0)
}

/// The milliseconds of a tag `[mm:ss.cc]` with these ASCII digits:
/// minutes, seconds and hundredths, each read as a two-digit number.
pub open spec fn tag_millis(m1: char, m2: char, s1: char, s2: char, c1: char, c2: char) -> nat {
    60000 * (10 * digit_value(m1) + digit_value(m2)) + 1000 * (10 * digit_value(s1) + digit_value(
        s2,
    )) + 10 * (10 * digit_value(c1) + digit_value(c2))
}

/// Text without a `[` has no tag: scanning it keeps it whole.
proof fn lemma_scan_plain(s: Seq<char>, i: int)
    requires
        0 <= i <= s.len(),
        forall|k: int| i <= k < s.len() ==> s[k] != '[',
    ensures
        scan(s, i) == (s.subrange(i, s.len() as int), Seq::<nat>::empty()),
    decreases s.len() - i,
{
    if i < s.len() {
        lemma_scan_plain(s, i + 1);
        assert(seq![s[i]] + s.subrange(i + 1, s.len() as int) =~= s.subrange(i, s.len() as int));
    } else {
        assert(s.subrange(i, s.len() as int) =~= Seq::<char>::empty());
    }
}

/// Without a line break from `i` on, the line runs to the end.
proof fn lemma_line_end_none(s: Seq<char>, i: int)
    requires
        0 <= i <= s.len(),
        forall|k: int| i <= k < s.len() ==> s[k] != '\n',
    ensures
        line_end(s, i) == s.len(),
    decreases s.len() - i,
{
    if i < s.len() {
        lemma_line_end_none(s, i + 1);
    }
}

/// The time of an LRC line: a line `[mm:ss.cc]text` (ASCII digits, text
/// without a tag, a line break or a carriage return, and not blank) gives
/// exactly one entry, at 60000 mm + 1000 ss + 10 cc milliseconds, with the
/// trimmed text.
pub proof fn lemma_tagged_line(
    m1: char,
    m2: char,
    s1: char,
    s2: char,
    c1: char,
    c2: char,
    text: Seq<char>,
)
    requires
        is_ascii_digit(m1) && is_ascii_digit(m2) && is_ascii_digit(s1) && is_ascii_digit(s2)
            && is_ascii_digit(c1) && is_ascii_digit(c2),
        forall|k: int| 0 <= k < text.len() ==> text[k] != '[' && text[k] != '\n' && text[k] != '\r',
        trim(text).len() > 0,
    ensures
        lrc_entries(seq!['[', m1, m2, ':', s1, s2, '.', c1, c2, ']'] + text) == seq![
            (tag_millis(m1, m2, s1, s2, c1, c2), trim(text)),
        ],
{
    let s = seq!['[', m1, m2, ':', s1, s2, '.', c1, c2, ']'] + text;
    assert(s[0] == '[' && s[1] == m1 && s[2] == m2 && s[3] == ':' && s[4] == s1 && s[5] == s2
        && s[6] == '.' && s[7] == c1 && s[8] == c2 && s[9] == ']');
    assert(minutes_len(s, 0) == 2);
    assert(centi_len(s, 7) == 2);
    assert(tag_at(s, 0) == Some((10nat, tag_millis(m1, m2, s1, s2, c1, c2))));
    assert forall|k: int| 10 <= k < s.len() implies s[k] != '[' && s[k] != '\n' by {
        assert(s[k] == text[k - 10]);
    }
    lemma_scan_plain(s, 10);
    assert(s.subrange(10, s.len() as int) =~= text);
    let r = scan(s, 0);
    assert(r.0 == text);
    assert(r.1 =~= seq![tag_millis(m1, m2, s1, s2, c1, c2)]);
    assert forall|k: int| 0 <= k < s.len() implies s[k] != '\n' by {
        if k >= 10 {
            assert(s[k] == text[k - 10]);
        }
    }
    lemma_line_end_none(s, 0);
    assert(s[s.len() - 1] == text[text.len() - 1]);
    assert(line_content_end(s, 0) == s.len());
    assert(s.subrange(0, s.len() as int) =~= s);
    assert(line_entries(s) =~= seq![(tag_millis(m1, m2, s1, s2, c1, c2), trim(text))]);
}

/// A line gives one entry per time tag, all with its text (tags removed,
/// trimmed), and none when it has no tag or its text is blank; so no entry
/// of a document has blank text.
pub proof fn lemma_entries_have_text(s: Seq<char>, i: int)
    ensures
        forall|k: int| 0 <= k < entries_from(s, i).len() ==> (#[trigger] entries_from(s, i)[k]).1.len()
            > 0,
    decreases s.len() - i,
{
    if 0 <= i < s.len() {
        let j = line_end(s, i);
        lemma_line_end_bounds(s, i);
        let here = line_entries(s.subrange(i, line_content_end(s, i)));
        assert forall|k: int| 0 <= k < here.len() implies (#[trigger] here[k]).1.len() > 0 by {}
        if j < s.len() {
            lemma_entries_have_text(s, j + 1);
            let rest = entries_from(s, j + 1);
            assert forall|k: int|
                0 <= k < (here + rest).len() implies (#[trigger] (here + rest)[k]).1.len() > 0 by {
                if k >= here.len() {
                    assert((here + rest)[k] == rest[k - here.len()]);
                }
            }
        }
    }
}

pub proof fn lemma_line_end_bounds(s: Seq<char>, i: int)
    requires
        0 <= i <= s.len(),
    ensures
        i <= line_end(s, i) <= s.len(),
        line_end(s, i) < s.len() ==> s[line_end(s, i)] == '\n',
    decreases s.len() - i,
{
    if i < s.len() && s[i] != '\n' {
        lemma_line_end_bounds(s, i + 1);
    }
}

/// The tag that starts at `i` in `v[from..to]`, read off the characters.
fn tag_at_exec(v: &[char], from: usize, to: usize, i: usize) -> (r: Option<(usize, u64)>)
    requires
        from <= i < to <= v@.len(),
    ensures
        tag_at(v@.subrange(from as int, to as int), i - from) == (match r {
            Some((n, t)) => Some((n as nat, t as nat)),
            None => None,
        }),
{
    let ghost s = v@.subrange(from as int, to as int);
    let ghost k = i - from;
    if v[i] != '[' {
        return None;
    }
    if !(i + 1 < to && tag_digit(v[i + 1])) {
        return None;
    }
    let m: usize = if i + 2 < to && tag_digit(v[i + 2]) { 2 } else { 1 };
    assert(m == minutes_len(s, k));
    if !(i + 1 + m < to && v[i + 1 + m] == ':') {
        return None;
    }
    let p = i + 2 + m;
    if !(p < to && p + 1 < to && tag_digit(v[p]) && tag_digit(v[p + 1])) {
        return None;
    }
    if !(p + 2 < to && v[p + 2] == '.') {
        return None;
    }
    let q = p + 3;
    if !(q < to && tag_digit(v[q])) {
        return None;
    }
    let c: usize = if q < to && q + 1 < to && tag_digit(v[q + 1]) { 2 } else { 1 };
    assert(c == centi_len(s, (q - from) as int));
    if !(q + c < to && v[q + c] == ']') {
        return None;
    }
    let minutes = group_value_exec(v, i + 1, m);
    let seconds = group_value_exec(v, p, 2);
    let centis = group_value_exec(v, q, c);
    let t: u64 = minutes * 60000 + seconds * 1000 + centis * 10;
    assert(group_value(s, k + 1, m as int) == group_value(v@, i + 1, m as int));
    assert(group_value(s, (p - from) as int, 2) == group_value(v@, p as int, 2));
    assert(group_value(s, (q - from) as int, c as int) == group_value(v@, q as int, c as int));
    Some((q + c + 1 - i, t))
}

fn group_value_exec(v: &[char], i: usize, len: usize) -> (r: u64)
    requires
        len == 1 || len == 2,
        i + len <= v@.len(),
    ensures
        r == group_value(v@, i as int, len as int),
        r < 100,
{
    if len == 1 {
        if '0' <= v[i] && v[i] <= '9' {
            (v[i] as u32 - '0' as u32) as u64
        } else {
            0
        }
    } else {
        if '0' <= v[i] && v[i] <= '9' && '0' <= v[i + 1] && v[i + 1] <= '9' {
            10 * ((v[i] as u32 - '0' as u32) as u64) + ((v[i + 1] as u32 - '0' as u32) as u64)
        } else {
            0
        }
    }
}


/// The `(time, text)` pairs of a list of lyric lines.
pub open spec fn timed_texts(lines: Seq<LyricLine>) -> Seq<(nat, Seq<char>)> {
    lines.map_values(|l: LyricLine| (l.time_ms as nat, l.text@))
}

/// Whether no line of the list carries word timings.
pub open spec fn all_unworded(lines: Seq<LyricLine>) -> bool {
    forall|k: int| 0 <= k < lines.len() ==> (#[trigger] lines[k]).words is None
}

/// Tag-free text and tag times of `v[from..to]`.
fn scan_exec(v: &[char], from: usize, to: usize) -> (r: (Vec<char>, Vec<u64>))
    requires
        from <= to <= v@.len(),
    ensures
        r.0@ == scan(v@.subrange(from as int, to as int), 0).0,
        r.1@.map_values(|t: u64| t as nat) == scan(v@.subrange(from as int, to as int), 0).1,
{
    let ghost s = v@.subrange(from as int, to as int);
    let mut text: Vec<char> = Vec::new();
    let mut times: Vec<u64> = Vec::new();
    let mut i = from;
    while i < to
        invariant
            from <= i <= to <= v@.len(),
            s == v@.subrange(from as int, to as int),
            text@ + scan(s, i - from).0 == scan(s, 0).0,
            times@.map_values(|t: u64| t as nat) + scan(s, i - from).1 == scan(s, 0).1,
        decreases to - i,
    {
        let ghost k = i - from;
        match tag_at_exec(v, from, to, i) {
            Some((n, t)) => {
                proof {
                    assert(times@.push(t).map_values(|t: u64| t as nat) =~= times@.map_values(
                        |t: u64| t as nat,
                    ).push(t as nat));
                    assert(seq![t as nat] + scan(s, k + n).1 == scan(s, k).1);
                    assert(times@.map_values(|t: u64| t as nat).push(t as nat) + scan(s, k + n).1
                        =~= times@.map_values(|t: u64| t as nat) + (seq![t as nat] + scan(
                        s,
                        k + n,
                    ).1));
                }
                times.push(t);
                i = i + n;
            },
            None => {
                proof {
                    assert(s[k] == v@[i as int]);
                    assert(text@.push(v@[i as int]) + scan(s, k + 1).0 =~= text@ + (seq![s[k]]
                        + scan(s, k + 1).0));
                }
                text.push(v[i]);
                i = i + 1;
            },
        }
    }
    proof {
        assert(text@ + scan(s, i - from).0 =~= text@);
        assert(times@.map_values(|t: u64| t as nat) + scan(s, i - from).1 =~= times@.map_values(
            |t: u64| t as nat,
        ));
    }
    (text, times)
}

/// Appends to `out` the lyric lines that `v[from..to]`, one line of an LRC
/// document, yields.
fn push_line_entries(v: &[char], from: usize, to: usize, out: &mut Vec<LyricLine>)
    requires
        from <= to <= v@.len(),
    ensures
        timed_texts(final(out)@) == timed_texts(old(out)@) + line_entries(
            v@.subrange(from as int, to as int),
        ),
        all_unworded(old(out)@) ==> all_unworded(final(out)@),
{
    let (text, times) = scan_exec(v, from, to);
    let ghost line = v@.subrange(from as int, to as int);
    let (lo, hi) = trim_bounds(text.as_slice(), 0, text.len());
    proof {
        assert(text@.subrange(0, text@.len() as int) =~= text@);
    }
    if times.len() == 0 || lo == hi {
        assert(timed_texts(out@) + line_entries(line) =~= timed_texts(out@));
        return ;
    }
    let mut trimmed: Vec<char> = Vec::new();
    let mut c = lo;
    while c < hi
        invariant
            lo <= c <= hi <= text@.len(),
            trimmed@ == text@.subrange(lo as int, c as int),
        decreases hi - c,
    {
        trimmed.push(text[c]);
        c = c + 1;
        assert(trimmed@ =~= text@.subrange(lo as int, c as int));
    }
    let body = string_from_chars(trimmed.as_slice());
    let ghost base = timed_texts(out@);
    let ghost entries = line_entries(line);
    let mut k: usize = 0;
    while k < times.len()
        invariant
            0 <= k <= times@.len(),
            body@ == trim(scan(line, 0).0),
            times@.map_values(|t: u64| t as nat) == scan(line, 0).1,
            entries == line_entries(line),
            entries.len() == times@.len(),
            forall|j: int| 0 <= j < times@.len() ==> #[trigger] entries[j] == (times@[j] as nat, body@),
            timed_texts(out@) == base + entries.take(k as int),
            all_unworded(old(out)@) ==> all_unworded(out@),
        decreases times@.len() - k,
    {
        let ghost before = out@;
        out.push(LyricLine { time_ms: times[k], text: body.clone(), words: None });
        proof {
            assert(timed_texts(out@) =~= timed_texts(before).push((times@[k as int] as nat, body@)));
            assert(entries.take(k + 1) =~= entries.take(k as int).push(entries[k as int]));
        }
        k = k + 1;
    }
    assert(entries.take(k as int) =~= entries);
}

/// Parses time-synced lyrics in LRC form into lyric lines, one per time
/// tag, in the order of the document.
///
/// For example `[00:29.26]Have you got colour in your cheeks?` gives one
/// line at 29 260 ms, and `[00:10.00][01:10.00]Chorus` gives two lines with
/// the text `Chorus`. Lines with no tag, or with no text besides their tags,
/// give nothing.
pub fn parse_synced_lyrics(synced: &str) -> (r: Vec<LyricLine>)
    ensures
        timed_texts(r@) == lrc_entries(synced@),
        all_unworded(r@),
        forall|k: int| 0 <= k < r@.len() ==> (#[trigger] r@[k]).text@.len() > 0,
{
    proof {
        lemma_entries_have_text(synced@, 0);
    }
    let v = chars_of(synced);
    let ghost s = v@;
    let n = v.len();
    let mut out: Vec<LyricLine> = Vec::new();
    let mut i: usize = 0;
    while i < n
        invariant
            n == v@.len(),
            s == v@,
            0 <= i <= n,
            timed_texts(out@) + entries_from(s, i as int) == entries_from(s, 0),
            all_unworded(out@),
        decreases n - i,
    {
        let mut j = i;
        while j < n && v[j] != '\n'
            invariant
                i <= j <= n,
                n == v@.len(),
                s == v@,
                line_end(s, j as int) == line_end(s, i as int),
            decreases n - j,
        {
            j = j + 1;
        }
        let content_end = if j < n && j > i && v[j - 1] == '\r' { j - 1 } else { j };
        assert(line_end(s, i as int) == j);
        assert(content_end == line_content_end(s, i as int));
        let ghost before = timed_texts(out@);
        push_line_entries(v.as_slice(), i, content_end, &mut out);
        if j >= n {
            assert(timed_texts(out@) + entries_from(s, n as int) =~= timed_texts(out@));
            i = n;
        } else {
            assert(timed_texts(out@) + entries_from(s, j + 1) =~= before + entries_from(s, i as int));
            i = j + 1;
        }
    }
    assert(timed_texts(out@) + entries_from(s, i as int) =~= timed_texts(out@));
    proof {
        assert forall|k: int| 0 <= k < out@.len() implies (#[trigger] out@[k]).text@.len() > 0 by {
            assert(timed_texts(out@)[k] == entries_from(s, 0)[k]);
        }
    }
    out
}

} // verus!
