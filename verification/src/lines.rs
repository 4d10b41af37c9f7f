//! Ordering lyric lines by time, and finding the line that is active at a
//! playback position.

use vstd::prelude::*;
use crate::types::LyricLine;

verus! {

/// Lines are in nondecreasing order of time.
pub open spec fn sorted_by_time(s: Seq<LyricLine>) -> bool {
    forall|i: int, j: int| 0 <= i <= j < s.len() ==> s[i].time_ms <= s[j].time_ms
}

/// The predicate "starts at `t`".
pub open spec fn at_time(t: u64) -> spec_fn(LyricLine) -> bool {
    |l: LyricLine| l.time_ms == t
}

/// The lines of `s` that start at `t`, in their order in `s`.
pub open spec fn with_time(s: Seq<LyricLine>, t: u64) -> Seq<LyricLine> {
    s.filter(at_time(t))
}

/// `out` is `input` sorted by time, lines with equal times keeping their
/// relative order (a stable sort).
pub open spec fn stable_sort_of(out: Seq<LyricLine>, input: Seq<LyricLine>) -> bool {
    &&& sorted_by_time(out)
    &&& forall|t: u64| #[trigger] with_time(out, t) == with_time(input, t)
}

proof fn lemma_filter_none(s: Seq<LyricLine>, p: spec_fn(LyricLine) -> bool)
    requires
        forall|i: int| 0 <= i < s.len() ==> !p(#[trigger] s[i]),
    ensures
        s.filter(p) == Seq::<LyricLine>::empty(),
    decreases s.len(),
{
    reveal(Seq::filter);
    if s.len() > 0 {
        lemma_filter_none(s.drop_last(), p);
    }
}

/// Inserting `x` at its upper bound keeps a sorted sequence sorted and adds
/// `x` at the end of its time class.
proof fn lemma_insert_at_upper_bound(s: Seq<LyricLine>, pos: int, x: LyricLine)
    requires
        sorted_by_time(s),
        0 <= pos <= s.len(),
        forall|i: int| 0 <= i < pos ==> (#[trigger] s[i]).time_ms <= x.time_ms,
        forall|i: int| pos <= i < s.len() ==> (#[trigger] s[i]).time_ms > x.time_ms,
    ensures
        sorted_by_time(s.insert(pos, x)),
        forall|t: u64| #[trigger] with_time(s.insert(pos, x), t) == with_time(s, t) + with_time(
            seq![x],
            t,
        ),
{
    let a = s.subrange(0, pos);
    let b = s.subrange(pos, s.len() as int);
    assert(s.insert(pos, x) =~= a + seq![x] + b);
    assert(s =~= a + b);
    assert forall|t: u64| #[trigger] with_time(s.insert(pos, x), t) == with_time(s, t) + with_time(
        seq![x],
        t,
    ) by {
        broadcast use Seq::filter_distributes_over_add;

        assert(with_time(a + seq![x] + b, t) == with_time(a + seq![x], t) + with_time(b, t));
        assert(with_time(a + seq![x], t) == with_time(a, t) + with_time(seq![x], t));
        assert(with_time(a + b, t) == with_time(a, t) + with_time(b, t));
        if t == x.time_ms {
            lemma_filter_none(b, at_time(t));
        } else {
            lemma_filter_none(seq![x], at_time(t));
        }
    }
}

/// A line occurs in `s` as often as among the lines of `s` with its time.
proof fn lemma_count_in_time_class(s: Seq<LyricLine>, x: LyricLine)
    ensures
        s.to_multiset().count(x) == with_time(s, x.time_ms).to_multiset().count(x),
    decreases s.len(),
{
    broadcast use vstd::seq_lib::group_to_multiset_ensures, vstd::multiset::group_multiset_axioms;

    if s.len() == 0 {
        reveal(Seq::filter);
        assert(with_time(s, x.time_ms).len() == 0);
        vstd::multiset::lemma_multiset_empty_len(s.to_multiset());
        vstd::multiset::lemma_multiset_empty_len(with_time(s, x.time_ms).to_multiset());
    } else {
        let s0 = s.drop_last();
        let e = s.last();
        assert(s =~= s0.push(e));
        lemma_count_in_time_class(s0, x);
        s0.lemma_filter_push(e, at_time(x.time_ms));
    }
}

/// Sorting keeps the lines: a stable sort of `input` holds each line
/// exactly as often as `input` does.
pub proof fn lemma_stable_sort_is_permutation(out: Seq<LyricLine>, input: Seq<LyricLine>)
    requires
        stable_sort_of(out, input),
    ensures
        out.to_multiset() == input.to_multiset(),
{
    assert forall|x: LyricLine| out.to_multiset().count(x) == input.to_multiset().count(x) by {
        lemma_count_in_time_class(out, x);
        lemma_count_in_time_class(input, x);
        assert(with_time(out, x.time_ms) == with_time(input, x.time_ms));
    }
    assert(out.to_multiset() =~= input.to_multiset());
}

/// Sorting no lines gives no lines.
pub proof fn lemma_stable_sort_of_empty(out: Seq<LyricLine>)
    requires
        stable_sort_of(out, Seq::empty()),
    ensures
        out.len() == 0,
{
    if out.len() > 0 {
        let t = out[0].time_ms;
        out.lemma_filter_contains(at_time(t), 0);
        assert(with_time(out, t) == with_time(Seq::<LyricLine>::empty(), t));
        reveal(Seq::filter);
        assert(with_time(Seq::<LyricLine>::empty(), t).len() == 0);
    }
}

/// Sorts lines by time, keeping the relative order of lines with equal times.
pub fn sort_by_time(lines: Vec<LyricLine>) -> (r: Vec<LyricLine>)
    ensures
        stable_sort_of(r@, lines@),
{
    let ghost input = lines@;
    let mut out: Vec<LyricLine> = Vec::new();
    let mut k: usize = 0;
    let n = lines.len();
    let mut rest = lines;
    let mut pending: Vec<LyricLine> = Vec::new();
    // Reverse `rest` into `pending` so that popping yields the input in order.
    while rest.len() > 0
        invariant
            pending@.len() + rest@.len() == n,
            input.len() == n,
            forall|i: int| 0 <= i < rest@.len() ==> #[trigger] rest@[i] == input[i],
            forall|i: int| 0 <= i < pending@.len() ==> #[trigger] pending@[i] == input[n - 1 - i],
        decreases rest@.len(),
    {
        let x = rest.pop().unwrap();
        pending.push(x);
    }
    assert(input.take(0) =~= out@);
    while k < n
        invariant
            k <= n,
            input.len() == n,
            pending@.len() == n - k,
            forall|i: int| 0 <= i < pending@.len() ==> #[trigger] pending@[i] == input[n - 1 - i],
            stable_sort_of(out@, input.take(k as int)),
        decreases n - k,
    {
        let x = pending.pop().unwrap();
        assert(x == input[k as int]);
        let mut pos = out.len();
        while pos > 0 && out[pos - 1].time_ms > x.time_ms
            invariant
                0 <= pos <= out@.len(),
                sorted_by_time(out@),
                forall|i: int| pos <= i < out@.len() ==> (#[trigger] out@[i]).time_ms > x.time_ms,
            decreases pos,
        {
            pos = pos - 1;
        }
        proof {
            assert forall|i: int| 0 <= i < pos implies (#[trigger] out@[i]).time_ms <= x.time_ms by {
                if pos > 0 {
                    assert(out@[i].time_ms <= out@[pos - 1].time_ms);
                }
            }
            lemma_insert_at_upper_bound(out@, pos as int, x);
            assert forall|t: u64| #[trigger] with_time(input.take(k + 1), t) == with_time(
                input.take(k as int),
                t,
            ) + with_time(seq![x], t) by {
                broadcast use Seq::filter_distributes_over_add;

                assert(input.take(k + 1) =~= input.take(k as int) + seq![x]);
            }
        }
        out.insert(pos, x);
        k = k + 1;
    }
    assert(input.take(n as int) =~= input);
    out
}

/// Whether `r` is the active line of sorted `s` at `position`: the last
/// line that starts at or before it, or none when there are no lines or the
/// first starts later.
pub open spec fn is_active_index(s: Seq<LyricLine>, position: u64, r: Option<usize>) -> bool {
    match r {
        None => s.len() == 0 || position < s[0].time_ms,
        Some(j) => {
            &&& j < s.len()
            &&& s[j as int].time_ms <= position
            &&& (j + 1 == s.len() || s[j + 1].time_ms > position)
        },
    }
}

/// Binary search for the active line of sorted `lines` at `position`.
pub(crate) fn find_active_index(lines: &Vec<LyricLine>, position: u64) -> (r: Option<usize>)
    requires
        sorted_by_time(lines@),
    ensures
        is_active_index(lines@, position, r),
{
    if lines.len() == 0 || position < lines[0].time_ms {
        return None;
    }
    // Invariant: lines[lo] starts at or before position; lines[hi..] start after it.
    let mut lo: usize = 0;
    let mut hi: usize = lines.len();
    while lo + 1 < hi
        invariant
            0 <= lo < hi <= lines@.len(),
            sorted_by_time(lines@),
            lines@[lo as int].time_ms <= position,
            forall|i: int| hi <= i < lines@.len() ==> (#[trigger] lines@[i]).time_ms > position,
        decreases hi - lo,
    {
        let mid = lo + (hi - lo) / 2;
        if lines[mid].time_ms <= position {
            lo = mid;
        } else {
            proof {
                assert forall|i: int| mid <= i < lines@.len() implies (
                #[trigger] lines@[i]).time_ms > position by {
                    assert(lines@[mid as int].time_ms <= lines@[i].time_ms);
                }
            }
            hi = mid;
        }
    }
    if lo + 1 < lines.len() {
        assert(lines@[lo + 1].time_ms > position);
    }
    Some(lo)
}

} // verus!
