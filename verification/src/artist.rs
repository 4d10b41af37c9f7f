//! Normalization of artist names for comparison, so that collaborations and
//! features listed in another order or spelling still compare equal:
//! lowercase, bracketed and parenthesized parts removed, split at `&` and
//! `,` and at "feat", "the" removed from each part, parts sorted and joined
//! by spaces.

use vstd::prelude::*;
use crate::similarity::{squeeze_and_trim, words_joined};
use crate::text::{
    chars_of, copy_range, lemma_next_sep_bounds, lowercase, matches_at, next_sep, occurs_at,
    string_from_chars, to_lowercase, trim, trim_bounds,
};

verus! {

/// `s[i..]` without the matches of the pattern `open`, at least
/// `min_inner` characters other than `close`, `close`; matches are taken
/// leftmost first and do not overlap, as `Regex::replace_all` takes them.
pub open spec fn strip_bracketed(s: Seq<char>, i: int, open: char, close: char, min_inner: int) -> Seq<
    char,
>
    decreases s.len() - i,
{
    if i < 0 || i >= s.len() {
        Seq::empty()
    } else {
        let k = next_sep(s, i + 1, close);
        proof {
            lemma_next_sep_bounds(s, i + 1, close);
        }
        if s[i] == open && k < s.len() && k - (i + 1) >= min_inner {
            strip_bracketed(s, k + 1, open, close, min_inner)
        } else {
            seq![s[i]] + strip_bracketed(s, i + 1, open, close, min_inner)
        }
    }
}

/// Removes the matches of `open [^close]{min_inner,} close` from `v`.
fn strip_pattern(v: &Vec<char>, open: char, close: char, min_inner: usize) -> (r: Vec<char>)
    ensures
        r@ == strip_bracketed(v@, 0, open, close, min_inner as int),
{
    let ghost s = v@;
    let n = v.len();
    let mut out: Vec<char> = Vec::new();
    let mut i: usize = 0;
    while i < n
        invariant
            n == v@.len(),
            s == v@,
            i <= n,
            out@ + strip_bracketed(s, i as int, open, close, min_inner as int) == strip_bracketed(
                s,
                0,
                open,
                close,
                min_inner as int,
            ),
        decreases n - i,
    {
        let mut k = i + 1;
        while k < n && v[k] != close
            invariant
                i + 1 <= k <= n,
                n == v@.len(),
                s == v@,
                next_sep(s, k as int, close) == next_sep(s, i + 1, close),
            decreases n - k,
        {
            k = k + 1;
        }
        proof {
            lemma_next_sep_bounds(s, i + 1, close);
            assert(next_sep(s, k as int, close) == k);
        }
        let ghost before = out@;
        if v[i] == open && k < n && k - (i + 1) >= min_inner {
            i = k + 1;
        } else {
            out.push(v[i]);
            assert(strip_bracketed(s, i as int, open, close, min_inner as int) == seq![s[i as int]]
                + strip_bracketed(s, i + 1, open, close, min_inner as int));
            assert(out@ + strip_bracketed(s, i + 1, open, close, min_inner as int) =~= before
                + strip_bracketed(s, i as int, open, close, min_inner as int));
            i = i + 1;
        }
    }
    assert(strip_bracketed(s, i as int, open, close, min_inner as int) =~= Seq::<char>::empty());
    assert(out@ =~= out@ + Seq::<char>::empty());
    out
}

/// Whether `c` separates the artists of a collaboration (`&` or `,`).
pub open spec fn is_collab_sep(c: char) -> bool {
    c == '&' || c == ','
}

/// Index of the first collaboration separator at or after `i`, or the
/// length of `s`.
pub open spec fn next_collab_sep(s: Seq<char>, i: int) -> int
    decreases s.len() - i,
{
    if i < 0 || i >= s.len() {
        s.len() as int
    } else if is_collab_sep(s[i]) {
        i
    } else {
        next_collab_sep(s, i + 1)
    }
}

pub proof fn lemma_next_collab_sep_bounds(s: Seq<char>, i: int)
    requires
        0 <= i <= s.len(),
    ensures
        i <= next_collab_sep(s, i) <= s.len(),
    decreases s.len() - i,
{
    if i < s.len() && !is_collab_sep(s[i]) {
        lemma_next_collab_sep_bounds(s, i + 1);
    }
}

/// The segments of `s[i..]` between collaboration separators
/// (`str::split(&['&', ','][..])`).
pub open spec fn collab_segments(s: Seq<char>, i: int) -> Seq<Seq<char>>
    decreases s.len() - i,
{
    if i < 0 || i > s.len() {
        Seq::empty()
    } else {
        let j = next_collab_sep(s, i);
        proof {
            lemma_next_collab_sep_bounds(s, i);
        }
        if j >= s.len() {
            seq![s.subrange(i, s.len() as int)]
        } else {
            seq![s.subrange(i, j)] + collab_segments(s, j + 1)
        }
    }
}

/// Index of the first occurrence of `pat` at or after `i`, or the length of
/// `s`.
pub open spec fn next_occurrence(s: Seq<char>, i: int, pat: Seq<char>) -> int
    decreases s.len() - i,
{
    if i < 0 || i >= s.len() {
        s.len() as int
    } else if occurs_at(s, pat, i) {
        i
    } else {
        next_occurrence(s, i + 1, pat)
    }
}

pub proof fn lemma_next_occurrence_bounds(s: Seq<char>, i: int, pat: Seq<char>)
    requires
        0 <= i <= s.len(),
    ensures
        i <= next_occurrence(s, i, pat) <= s.len(),
        next_occurrence(s, i, pat) < s.len() ==> occurs_at(s, pat, next_occurrence(s, i, pat)),
    decreases s.len() - i,
{
    if i < s.len() && !occurs_at(s, pat, i) {
        lemma_next_occurrence_bounds(s, i + 1, pat);
    }
}

/// The pieces of `s[i..]` between occurrences of the non-empty `pat`
/// (`str::split` with a string pattern).
pub open spec fn split_on(s: Seq<char>, i: int, pat: Seq<char>) -> Seq<Seq<char>>
    decreases s.len() - i,
{
    if i < 0 || i > s.len() || pat.len() == 0 {
        Seq::empty()
    } else {
        let k = next_occurrence(s, i, pat);
        proof {
            lemma_next_occurrence_bounds(s, i, pat);
        }
        if k >= s.len() {
            seq![s.subrange(i, s.len() as int)]
        } else {
            seq![s.subrange(i, k)] + split_on(s, k + pat.len(), pat)
        }
    }
}

/// `s[i..]` with every occurrence of the non-empty `pat` removed, leftmost
/// first (`str::replace(pat, "")`).
pub open spec fn remove_all(s: Seq<char>, i: int, pat: Seq<char>) -> Seq<char>
    decreases s.len() - i,
{
    if i < 0 || i >= s.len() || pat.len() == 0 {
        if 0 <= i < s.len() {
            s.subrange(i, s.len() as int)
        } else {
            Seq::empty()
        }
    } else if occurs_at(s, pat, i) {
        remove_all(s, i + pat.len(), pat)
    } else {
        seq![s[i]] + remove_all(s, i + 1, pat)
    }
}

/// A piece of an artist credit cleaned for comparison: trimmed, "the"
/// removed, words joined by single spaces.
pub open spec fn clean_piece(p: Seq<char>) -> Seq<char> {
    words_joined(remove_all(trim(p), 0, "the"@))
}

/// The cleaned pieces of one collaboration segment, split at "feat".
pub open spec fn segment_pieces(seg: Seq<char>) -> Seq<Seq<char>> {
    split_on(words_joined(seg), 0, "feat"@).map_values(|p: Seq<char>| clean_piece(p))
}

/// The concatenation of a sequence of sequences.
pub open spec fn concat_all(s: Seq<Seq<Seq<char>>>) -> Seq<Seq<char>>
    decreases s.len(),
{
    if s.len() == 0 {
        Seq::empty()
    } else {
        concat_all(s.drop_last()) + s.last()
    }
}

/// The lowercased name without `[...]` (non-empty) and `(...)` parts.
pub open spec fn stripped_name(s: Seq<char>) -> Seq<char> {
    strip_bracketed(strip_bracketed(lowercase(s), 0, '[', ']', 1), 0, '(', ')', 0)
}

/// The non-empty cleaned pieces of an artist credit, in the order they
/// appear.
pub open spec fn artist_pieces(s: Seq<char>) -> Seq<Seq<char>> {
    concat_all(
        collab_segments(stripped_name(s), 0).map_values(|seg: Seq<char>| segment_pieces(seg)),
    ).filter(|p: Seq<char>| p.len() > 0)
}

/// Lexicographic order on character sequences, by code point. On strings
/// this is the order of `String`'s `Ord`, since UTF-8 bytes compare as the
/// code points they encode.
pub open spec fn text_le(a: Seq<char>, b: Seq<char>) -> bool
    decreases a.len(),
{
    if a.len() == 0 {
        true
    } else if b.len() == 0 {
        false
    } else if a[0] != b[0] {
        a[0] < b[0]
    } else {
        text_le(a.drop_first(), b.drop_first())
    }
}

/// Whether `q` is in ascending order.
pub open spec fn texts_sorted(q: Seq<Seq<char>>) -> bool {
    forall|i: int, j: int| 0 <= i < j < q.len() ==> text_le(#[trigger] q[i], #[trigger] q[j])
}

/// The texts joined by single spaces.
pub open spec fn join_space(q: Seq<Seq<char>>) -> Seq<char>
    decreases q.len(),
{
    if q.len() == 0 {
        Seq::empty()
    } else if q.len() == 1 {
        q[0]
    } else {
        join_space(q.drop_last()) + seq![' '] + q.last()
    }
}

/// The views of a vector of character vectors.
pub open spec fn deep(v: Seq<Vec<char>>) -> Seq<Seq<char>> {
    v.map_values(|x: Vec<char>| x@)
}

proof fn lemma_text_le_total(a: Seq<char>, b: Seq<char>)
    ensures
        text_le(a, b) || text_le(b, a),
    decreases a.len(),
{
    if a.len() > 0 && b.len() > 0 && a[0] == b[0] {
        lemma_text_le_total(a.drop_first(), b.drop_first());
    }
}

proof fn lemma_text_le_refl(a: Seq<char>)
    ensures
        text_le(a, a),
    decreases a.len(),
{
    if a.len() > 0 {
        lemma_text_le_refl(a.drop_first());
    }
}

proof fn lemma_text_le_trans(a: Seq<char>, b: Seq<char>, c: Seq<char>)
    requires
        text_le(a, b),
        text_le(b, c),
    ensures
        text_le(a, c),
    decreases a.len(),
{
    if a.len() > 0 && b.len() > 0 && c.len() > 0 && a[0] == b[0] && b[0] == c[0] {
        lemma_text_le_trans(a.drop_first(), b.drop_first(), c.drop_first());
    }
}

/// Whether `a` comes before or equals `b` in code point order.
fn chars_le(a: &Vec<char>, b: &Vec<char>) -> (r: bool)
    ensures
        r == text_le(a@, b@),
{
    let mut i: usize = 0;
    assert(a@.skip(0) =~= a@);
    assert(b@.skip(0) =~= b@);
    while i < a.len() && i < b.len() && a[i] == b[i]
        invariant
            i <= a@.len(),
            i <= b@.len(),
            text_le(a@, b@) == text_le(a@.skip(i as int), b@.skip(i as int)),
        decreases a@.len() - i,
    {
        assert(a@.skip(i as int).drop_first() =~= a@.skip(i + 1));
        assert(b@.skip(i as int).drop_first() =~= b@.skip(i + 1));
        i = i + 1;
    }
    if i == a.len() {
        true
    } else if i == b.len() {
        false
    } else {
        assert(a@.skip(i as int)[0] == a@[i as int]);
        assert(b@.skip(i as int)[0] == b@[i as int]);
        a[i] < b[i]
    }
}

/// Sorts texts in code point order (insertion sort).
fn sort_texts(v: Vec<Vec<char>>) -> (r: Vec<Vec<char>>)
    ensures
        texts_sorted(deep(r@)),
        deep(r@).to_multiset() == deep(v@).to_multiset(),
{
    let mut out: Vec<Vec<char>> = Vec::new();
    let mut i: usize = 0;
    assert(deep(out@) =~= deep(v@.take(0)));
    while i < v.len()
        invariant
            i <= v@.len(),
            texts_sorted(deep(out@)),
            deep(out@).to_multiset() == deep(v@.take(i as int)).to_multiset(),
        decreases v@.len() - i,
    {
        let x = v[i].clone();
        let mut pos: usize = out.len();
        while pos > 0 && !chars_le(&out[pos - 1], &x)
            invariant
                pos <= out@.len(),
                forall|k: int| pos <= k < out@.len() ==> !text_le(#[trigger] out@[k]@, x@),
            decreases pos,
        {
            pos = pos - 1;
        }
        let ghost before = deep(out@);
        proof {
            assert forall|k: int| 0 <= k < pos implies text_le(#[trigger] before[k], x@) by {
                if k < pos - 1 {
                    assert(text_le(before[k], before[pos - 1]));
                } else {
                    lemma_text_le_refl(before[k]);
                }
                lemma_text_le_total(before[pos - 1], x@);
                lemma_text_le_trans(before[k], before[pos - 1], x@);
            }
            assert forall|k: int| pos <= k < before.len() implies text_le(x@, #[trigger] before[k]) by {
                assert(before[k] == out@[k]@);
                lemma_text_le_total(before[k], x@);
            }
        }
        out.insert(pos, x);
        proof {
            assert(deep(out@) =~= before.insert(pos as int, x@));
            assert forall|a: int, b: int|
                0 <= a < b < deep(out@).len() implies text_le(
                #[trigger] deep(out@)[a],
                #[trigger] deep(out@)[b],
            ) by {
                let q = deep(out@);
                if b < pos {
                    assert(q[a] == before[a] && q[b] == before[b]);
                } else if b == pos {
                    assert(q[a] == before[a]);
                } else if a == pos {
                    assert(q[b] == before[b - 1]);
                } else if a < pos {
                    assert(q[a] == before[a] && q[b] == before[b - 1]);
                    lemma_text_le_trans(before[a], x@, before[b - 1]);
                } else {
                    assert(q[a] == before[a - 1] && q[b] == before[b - 1]);
                }
            }
            assert(v@.take(i + 1) =~= v@.take(i as int).push(v@[i as int]));
            assert(deep(v@.take(i + 1)) =~= deep(v@.take(i as int)).push(x@));
            vstd::seq_lib::to_multiset_insert(before, pos as int, x@);
            vstd::seq_lib::to_multiset_build(deep(v@.take(i as int)), x@);
        }
        i = i + 1;
    }
    assert(v@.take(i as int) =~= v@);
    out
}

/// The segments of `v` between collaboration separators.
fn collab_split(v: &Vec<char>) -> (r: Vec<Vec<char>>)
    ensures
        deep(r@) == collab_segments(v@, 0),
{
    let ghost sv = v@;
    let n = v.len();
    let mut out: Vec<Vec<char>> = Vec::new();
    let mut i: usize = 0;
    loop
        invariant
            n == v@.len(),
            sv == v@,
            0 <= i <= n,
            deep(out@) + collab_segments(sv, i as int) == collab_segments(sv, 0),
        decreases n - i,
    {
        let mut j = i;
        while j < n && v[j] != '&' && v[j] != ','
            invariant
                i <= j <= n,
                n == v@.len(),
                sv == v@,
                next_collab_sep(sv, j as int) == next_collab_sep(sv, i as int),
            decreases n - j,
        {
            j = j + 1;
        }
        assert(next_collab_sep(sv, i as int) == j);
        let field = copy_range(v.as_slice(), i, j);
        let ghost before = deep(out@);
        out.push(field);
        assert(deep(out@) =~= before.push(sv.subrange(i as int, j as int)));
        if j >= n {
            assert(collab_segments(sv, i as int) =~= seq![sv.subrange(i as int, j as int)]);
            assert(deep(out@) =~= before + collab_segments(sv, i as int));
            return out;
        }
        assert(collab_segments(sv, i as int) =~= seq![sv.subrange(i as int, j as int)]
            + collab_segments(sv, j + 1));
        assert(deep(out@) + collab_segments(sv, j + 1) =~= before + collab_segments(sv, i as int));
        i = j + 1;
    }
}

/// The pieces of `v` between occurrences of the non-empty `pat`.
fn split_pieces(v: &Vec<char>, pat: &Vec<char>) -> (r: Vec<Vec<char>>)
    requires
        pat@.len() > 0,
    ensures
        deep(r@) == split_on(v@, 0, pat@),
{
    let ghost sv = v@;
    let ghost pv = pat@;
    let n = v.len();
    let mut out: Vec<Vec<char>> = Vec::new();
    let mut i: usize = 0;
    loop
        invariant
            n == v@.len(),
            sv == v@,
            pv == pat@,
            pv.len() > 0,
            0 <= i <= n,
            deep(out@) + split_on(sv, i as int, pv) == split_on(sv, 0, pv),
        decreases n - i,
    {
        let mut k = i;
        while k < n && !matches_at(v.as_slice(), pat.as_slice(), k)
            invariant
                i <= k <= n,
                n == v@.len(),
                sv == v@,
                pv == pat@,
                next_occurrence(sv, k as int, pv) == next_occurrence(sv, i as int, pv),
            decreases n - k,
        {
            k = k + 1;
        }
        proof {
            lemma_next_occurrence_bounds(sv, i as int, pv);
        }
        assert(next_occurrence(sv, i as int, pv) == k);
        let field = copy_range(v.as_slice(), i, k);
        let ghost before = deep(out@);
        out.push(field);
        assert(deep(out@) =~= before.push(sv.subrange(i as int, k as int)));
        if k >= n {
            assert(split_on(sv, i as int, pv) =~= seq![sv.subrange(i as int, k as int)]);
            assert(deep(out@) =~= before + split_on(sv, i as int, pv));
            return out;
        }
        assert(split_on(sv, i as int, pv) =~= seq![sv.subrange(i as int, k as int)] + split_on(
            sv,
            k + pv.len(),
            pv,
        ));
        assert(deep(out@) + split_on(sv, k + pv.len(), pv) =~= before + split_on(
            sv,
            i as int,
            pv,
        ));
        i = k + pat.len();
    }
}

/// `v` with every occurrence of the non-empty `pat` removed.
fn remove_pieces(v: &Vec<char>, pat: &Vec<char>) -> (r: Vec<char>)
    requires
        pat@.len() > 0,
    ensures
        r@ == remove_all(v@, 0, pat@),
{
    let ghost sv = v@;
    let ghost pv = pat@;
    let n = v.len();
    let mut out: Vec<char> = Vec::new();
    let mut i: usize = 0;
    while i < n
        invariant
            n == v@.len(),
            sv == v@,
            pv == pat@,
            pv.len() > 0,
            0 <= i <= n,
            out@ + remove_all(sv, i as int, pv) == remove_all(sv, 0, pv),
        decreases n - i,
    {
        let ghost before = out@;
        if matches_at(v.as_slice(), pat.as_slice(), i) {
            i = i + pat.len();
        } else {
            out.push(v[i]);
            assert(out@ + remove_all(sv, i + 1, pv) =~= before + remove_all(sv, i as int, pv));
            i = i + 1;
        }
    }
    assert(remove_all(sv, i as int, pv) =~= Seq::<char>::empty());
    assert(out@ =~= out@ + Seq::<char>::empty());
    out
}

/// The texts of `q` joined by single spaces.
fn join_with_space(q: &Vec<Vec<char>>) -> (r: Vec<char>)
    ensures
        r@ == join_space(deep(q@)),
{
    let mut out: Vec<char> = Vec::new();
    let mut i: usize = 0;
    while i < q.len()
        invariant
            i <= q@.len(),
            out@ == join_space(deep(q@).take(i as int)),
        decreases q@.len() - i,
    {
        let ghost before = out@;
        if i > 0 {
            out.push(' ');
        }
        let w = &q[i];
        let mut k: usize = 0;
        let ghost mid = out@;
        while k < w.len()
            invariant
                k <= w@.len(),
                out@ == mid + w@.take(k as int),
            decreases w@.len() - k,
        {
            out.push(w[k]);
            k = k + 1;
            assert(out@ =~= mid + w@.take(k as int));
        }
        proof {
            assert(w@.take(k as int) =~= w@);
            let t = deep(q@).take(i + 1);
            assert(t.drop_last() =~= deep(q@).take(i as int));
            assert(t.last() == w@);
            if i == 0 {
                assert(t =~= seq![w@]);
                assert(out@ =~= w@);
            } else {
                assert(out@ =~= before + seq![' '] + w@);
            }
        }
        i = i + 1;
    }
    assert(deep(q@).take(i as int) =~= deep(q@));
    out
}

/// The cleaned pieces of one collaboration segment.
fn pieces_of_segment(seg: &Vec<char>, feat: &Vec<char>, the: &Vec<char>) -> (r: Vec<Vec<char>>)
    requires
        feat@ == "feat"@,
        the@ == "the"@,
    ensures
        deep(r@) == segment_pieces(seg@),
{
    proof {
        reveal_strlit("feat");
        reveal_strlit("the");
    }
    let joined = squeeze_and_trim(seg, false);
    let parts = split_pieces(&joined, feat);
    let mut out: Vec<Vec<char>> = Vec::new();
    let mut i: usize = 0;
    while i < parts.len()
        invariant
            i <= parts@.len(),
            the@ == "the"@,
            the@.len() == 3,
            deep(parts@) == split_on(words_joined(seg@), 0, "feat"@),
            deep(out@) == deep(parts@).take(i as int).map_values(|p: Seq<char>| clean_piece(p)),
        decreases parts@.len() - i,
    {
        let p = &parts[i];
        let (lo, hi) = trim_bounds(p.as_slice(), 0, p.len());
        assert(p@.subrange(0, p@.len() as int) =~= p@);
        let t = copy_range(p.as_slice(), lo, hi);
        let removed = remove_pieces(&t, the);
        let cleaned = squeeze_and_trim(&removed, false);
        let ghost before = deep(out@);
        out.push(cleaned);
        proof {
            assert(deep(parts@)[i as int] == p@);
            assert(deep(out@) =~= before.push(clean_piece(p@)));
            assert(deep(parts@).take(i + 1) =~= deep(parts@).take(i as int).push(p@));
            assert(deep(out@) =~= deep(parts@).take(i + 1).map_values(
                |p: Seq<char>| clean_piece(p),
            ));
        }
        i = i + 1;
    }
    assert(deep(parts@).take(i as int) =~= deep(parts@));
    out
}

/// Normalizes an artist credit for comparison: lowercased, `[...]` and
/// `(...)` parts removed, split into artists at `&` and `,` and at "feat",
/// "the" removed from each, empty parts dropped, the rest sorted and joined
/// by single spaces.
pub fn normalize_artist_name(artist: &str) -> (r: String)
    ensures
        artist@.len() == 0 ==> r@.len() == 0,
        artist@.len() > 0 ==> exists|q: Seq<Seq<char>>|
            texts_sorted(q) && q.to_multiset() == artist_pieces(artist@).to_multiset() && r@
                == join_space(q),
{
    if artist.is_empty() {
        return String::new();
    }
    let lower = to_lowercase(artist);
    let v = chars_of(lower.as_str());
    let a = strip_pattern(&v, '[', ']', 1);
    let b = strip_pattern(&a, '(', ')', 0);
    let segments = collab_split(&b);
    let feat = chars_of("feat");
    let the = chars_of("the");
    let ghost segs = deep(segments@);
    let ghost all = segs.map_values(|seg: Seq<char>| segment_pieces(seg));
    let mut parts: Vec<Vec<char>> = Vec::new();
    let mut i: usize = 0;
    while i < segments.len()
        invariant
            i <= segments@.len(),
            segs == deep(segments@),
            all == segs.map_values(|seg: Seq<char>| segment_pieces(seg)),
            feat@ == "feat"@,
            the@ == "the"@,
            deep(parts@) == concat_all(all.take(i as int)).filter(|p: Seq<char>| p.len() > 0),
        decreases segments@.len() - i,
    {
        let pieces = pieces_of_segment(&segments[i], &feat, &the);
        let mut k: usize = 0;
        let ghost base = deep(parts@);
        while k < pieces.len()
            invariant
                k <= pieces@.len(),
                deep(parts@) == base + deep(pieces@).take(k as int).filter(
                    |p: Seq<char>| p.len() > 0,
                ),
            decreases pieces@.len() - k,
        {
            let ghost before = deep(parts@);
            proof {
                assert(deep(pieces@).take(k + 1) =~= deep(pieces@).take(k as int).push(
                    pieces@[k as int]@,
                ));
                reveal(Seq::filter);
                assert(deep(pieces@).take(k + 1).drop_last() =~= deep(pieces@).take(k as int));
            }
            if pieces[k].len() > 0 {
                parts.push(pieces[k].clone());
                assert(deep(parts@) =~= before.push(pieces@[k as int]@));
            }
            k = k + 1;
        }
        proof {
            assert(deep(pieces@).take(k as int) =~= deep(pieces@));
            assert(all.take(i + 1).drop_last() =~= all.take(i as int));
            assert(all[i as int] == deep(pieces@));
            Seq::filter_distributes_over_add(
                concat_all(all.take(i as int)),
                deep(pieces@),
                |p: Seq<char>| p.len() > 0,
            );
        }
        i = i + 1;
    }
    proof {
        assert(all.take(i as int) =~= all);
        reveal_strlit("feat");
        reveal_strlit("the");
    }
    let sorted = sort_texts(parts);
    let joined = join_with_space(&sorted);
    string_from_chars(joined.as_slice())
}

proof fn lemma_text_le_antisym(a: Seq<char>, b: Seq<char>)
    requires
        text_le(a, b),
        text_le(b, a),
    ensures
        a == b,
    decreases a.len(),
{
    if a.len() > 0 && b.len() > 0 {
        lemma_text_le_antisym(a.drop_first(), b.drop_first());
        assert(a =~= seq![a[0]] + a.drop_first());
        assert(b =~= seq![b[0]] + b.drop_first());
    } else if a.len() == 0 && b.len() > 0 {
        assert(!text_le(b, a));
    } else if a.len() > 0 {
    } else {
        assert(a =~= b);
    }
}

/// Two sorted arrangements of the same texts are the same.
proof fn lemma_sorted_unique(p: Seq<Seq<char>>, q: Seq<Seq<char>>)
    requires
        texts_sorted(p),
        texts_sorted(q),
        p.to_multiset() == q.to_multiset(),
    ensures
        p == q,
    decreases p.len(),
{
    p.to_multiset_ensures();
    q.to_multiset_ensures();
    if p.len() == 0 {
        assert(q.len() == 0);
        assert(p =~= q);
    } else {
        assert(q.len() == p.len());
        let x = p[0];
        let y = q[0];
        // x is in q, so y <= x; y is in p, so x <= y
        assert(p.to_multiset().count(x) > 0) by {
            assert(p.contains(x));
        }
        assert(q.contains(x));
        let jx = choose|j: int| 0 <= j < q.len() && q[j] == x;
        if jx > 0 {
            assert(text_le(q[0], q[jx]));
        } else {
            lemma_text_le_refl(y);
        }
        assert(q.to_multiset().count(y) > 0) by {
            assert(q.contains(y));
        }
        assert(p.contains(y));
        let jy = choose|j: int| 0 <= j < p.len() && p[j] == y;
        if jy > 0 {
            assert(text_le(p[0], p[jy]));
        } else {
            lemma_text_le_refl(x);
        }
        lemma_text_le_antisym(x, y);
        let p1 = p.drop_first();
        let q1 = q.drop_first();
        assert(p =~= seq![x] + p1);
        assert(q =~= seq![x] + q1);
        assert(p1.to_multiset() == q1.to_multiset()) by {
            vstd::seq_lib::lemma_multiset_commutative(seq![x], p1);
            vstd::seq_lib::lemma_multiset_commutative(seq![x], q1);
            assert(p.remove(0) =~= p1);
            assert(q.remove(0) =~= q1);
            vstd::seq_lib::to_multiset_remove(p, 0);
            vstd::seq_lib::to_multiset_remove(q, 0);
        }
        assert(texts_sorted(p1)) by {
            assert forall|i: int, j: int| 0 <= i < j < p1.len() implies text_le(
                #[trigger] p1[i],
                #[trigger] p1[j],
            ) by {
                assert(p1[i] == p[i + 1] && p1[j] == p[j + 1]);
            }
        }
        assert(texts_sorted(q1)) by {
            assert forall|i: int, j: int| 0 <= i < j < q1.len() implies text_le(
                #[trigger] q1[i],
                #[trigger] q1[j],
            ) by {
                assert(q1[i] == q[i + 1] && q1[j] == q[j + 1]);
            }
        }
        lemma_sorted_unique(p1, q1);
    }
}

/// The order in which collaborators are credited does not matter: credits
/// whose cleaned pieces are the same, in any order, normalize to the same
/// text.
pub proof fn lemma_artist_order_irrelevant(
    a: Seq<char>,
    b: Seq<char>,
    ra: Seq<char>,
    rb: Seq<char>,
    qa: Seq<Seq<char>>,
    qb: Seq<Seq<char>>,
)
    requires
        artist_pieces(a).to_multiset() == artist_pieces(b).to_multiset(),
        texts_sorted(qa),
        qa.to_multiset() == artist_pieces(a).to_multiset(),
        ra == join_space(qa),
        texts_sorted(qb),
        qb.to_multiset() == artist_pieces(b).to_multiset(),
        rb == join_space(qb),
    ensures
        ra == rb,
{
    lemma_sorted_unique(qa, qb);
}

} // verus!
