//! The string measures behind fuzzy song matching: edit distance, bigram
//! sets and their overlap, and the normalization of titles and artist names.
//! How these are weighed into a score is floating-point arithmetic done by
//! the caller.

use vstd::prelude::*;
use crate::cache::contains_string;
use crate::json::{as_text, get, member, text_of, JsonValue};
use crate::metadata::opt_view;
use crate::text::{
    char_is_ws, chars_of, copy_range, is_ws, lowercase, same_text, string_from_chars, to_lowercase,
    trim, trim_bounds, trim_end, trim_start, views,
};

verus! {

/// The smallest of three numbers.
pub open spec fn min3(a: int, b: int, c: int) -> int {
    if a <= b && a <= c {
        a
    } else if b <= c {
        b
    } else {
        c
    }
}

/// The Levenshtein distance between `a` and `b`: the fewest insertions,
/// deletions and substitutions of single characters that turn one into the
/// other.
pub open spec fn edit_distance(a: Seq<char>, b: Seq<char>) -> nat
    decreases a.len() + b.len(),
{
    if a.len() == 0 {
        b.len()
    } else if b.len() == 0 {
        a.len()
    } else {
        min3(
            edit_distance(a.drop_last(), b) + 1int,
            edit_distance(a, b.drop_last()) + 1int,
            edit_distance(a.drop_last(), b.drop_last()) + (if a.last() == b.last() {
                0int
            } else {
                1int
            }),
        ) as nat
    }
}

/// Distance 0 only between equal strings: together with
/// `lemma_edit_distance_self`, the distance is 0 exactly when the strings
/// are equal.
pub proof fn lemma_edit_distance_zero_only_if_equal(a: Seq<char>, b: Seq<char>)
    requires
        edit_distance(a, b) == 0,
    ensures
        a == b,
    decreases a.len() + b.len(),
{
    if a.len() == 0 {
        assert(b =~= a);
    } else if b.len() == 0 {
        assert(a =~= b);
    } else {
        let same = edit_distance(a.drop_last(), b.drop_last()) + (if a.last() == b.last() {
            0int
        } else {
            1int
        });
        assert(same == 0);
        lemma_edit_distance_zero_only_if_equal(a.drop_last(), b.drop_last());
        assert(a =~= a.drop_last().push(a.last()));
        assert(b =~= b.drop_last().push(b.last()));
    }
}

/// A string is at distance 0 from itself.
pub proof fn lemma_edit_distance_self(a: Seq<char>)
    ensures
        edit_distance(a, a) == 0,
    decreases a.len(),
{
    if a.len() > 0 {
        lemma_edit_distance_self(a.drop_last());
    }
}

/// The distance does not depend on the order of the two strings.
pub proof fn lemma_edit_distance_symmetric(a: Seq<char>, b: Seq<char>)
    ensures
        edit_distance(a, b) == edit_distance(b, a),
    decreases a.len() + b.len(),
{
    if a.len() > 0 && b.len() > 0 {
        lemma_edit_distance_symmetric(a.drop_last(), b);
        lemma_edit_distance_symmetric(a, b.drop_last());
        lemma_edit_distance_symmetric(a.drop_last(), b.drop_last());
    }
}

/// The distance is at most the longer length.
pub proof fn lemma_edit_distance_bound(a: Seq<char>, b: Seq<char>)
    ensures
        edit_distance(a, b) <= if a.len() >= b.len() {
            a.len()
        } else {
            b.len()
        },
    decreases a.len() + b.len(),
{
    if a.len() > 0 && b.len() > 0 {
        lemma_edit_distance_bound(a.drop_last(), b.drop_last());
    }
}

/// The Levenshtein distance between two strings, over their characters.
pub fn levenshtein_distance(s1: &str, s2: &str) -> (r: usize)
    ensures
        r == edit_distance(s1@, s2@),
        r == 0 <==> s1@ == s2@,
{
    proof {
        lemma_edit_distance_self(s1@);
        if edit_distance(s1@, s2@) == 0 {
            lemma_edit_distance_zero_only_if_equal(s1@, s2@);
        }
    }
    if same_text(s1, s2) {
        proof {
            lemma_edit_distance_self(s1@);
        }
        return 0;
    }
    let a = chars_of(s1);
    let b = chars_of(s2);
    if a.len() == 0 {
        return b.len();
    }
    if b.len() == 0 {
        return a.len();
    }
    let n = a.len();
    let m = b.len();
    let mut prev: Vec<usize> = Vec::new();
    prev.push(0);
    let mut k: usize = 0;
    while k < n
        invariant
            k <= n,
            n == a@.len(),
            prev@.len() == k + 1,
            forall|i: int| 0 <= i <= k ==> #[trigger] prev@[i] == i,
        decreases n - k,
    {
        k = k + 1;
        prev.push(k);
    }
    assert forall|i: int| 0 <= i <= n implies #[trigger] prev@[i] == edit_distance(
        a@.take(i),
        b@.take(0),
    ) by {
        assert(b@.take(0).len() == 0);
    }
    let mut j: usize = 0;
    while j < m
        invariant
            n == a@.len(),
            m == b@.len(),
            n > 0,
            a@ == s1@,
            b@ == s2@,
            j <= b@.len(),
            prev@.len() == n + 1,
            forall|i: int| 0 <= i <= n ==> #[trigger] prev@[i] == edit_distance(
                a@.take(i),
                b@.take(j as int),
            ),
        decreases b@.len() - j,
    {
        let mut curr: Vec<usize> = Vec::new();
        curr.push(j + 1);
        proof {
            assert(a@.take(0).len() == 0);
            assert(b@.take(j + 1).len() == j + 1);
        }
        let mut i: usize = 0;
        while i < n
            invariant
                n == a@.len(),
                m == b@.len(),
                j < b@.len(),
                i <= n,
                prev@.len() == n + 1,
                curr@.len() == i + 1,
                forall|x: int| 0 <= x <= n ==> #[trigger] prev@[x] == edit_distance(
                    a@.take(x),
                    b@.take(j as int),
                ),
                forall|x: int| 0 <= x <= i ==> #[trigger] curr@[x] == edit_distance(
                    a@.take(x),
                    b@.take(j + 1),
                ),
            decreases n - i,
        {
            let cost: u128 = if a[i] == b[j] {
                0
            } else {
                1
            };
            let del = prev[i + 1] as u128 + 1;
            let ins = curr[i] as u128 + 1;
            let sub = prev[i] as u128 + cost;
            let best = if del <= ins && del <= sub {
                del
            } else if ins <= sub {
                ins
            } else {
                sub
            };
            proof {
                let ai = a@.take(i + 1);
                let bj = b@.take(j + 1);
                assert(ai.drop_last() =~= a@.take(i as int));
                assert(bj.drop_last() =~= b@.take(j as int));
                assert(ai.last() == a@[i as int]);
                assert(bj.last() == b@[j as int]);
                assert(best == edit_distance(ai, bj));
                lemma_edit_distance_bound(ai, bj);
                assert(ai.len() == i + 1);
                assert(bj.len() == j + 1);
                assert(edit_distance(ai, bj) <= usize::MAX);
                assert(best <= usize::MAX);
            }
            let ghost before = curr@;
            curr.push(best as usize);
            assert(curr@[i + 1] == edit_distance(a@.take(i + 1), b@.take(j + 1)));
            assert(forall|x: int| 0 <= x <= i ==> curr@[x] == before[x]);
            i = i + 1;
        }
        prev = curr;
        j = j + 1;
    }
    proof {
        assert(a@.take(n as int) =~= a@);
        assert(b@.take(b@.len() as int) =~= b@);
    }
    prev[n]
}

/// The `size` characters of `s` from position `i`.
pub open spec fn gram_at(s: Seq<char>, i: int, size: nat) -> Seq<char> {
    s.subrange(i, i + size)
}

/// The set of substrings of `s` that are `size` characters long (none when
/// `size` is 0).
pub open spec fn ngram_set(s: Seq<char>, size: nat) -> Set<Seq<char>> {
    Set::new(
        |g: Seq<char>|
            size > 0 && exists|i: int| 0 <= i && i + size <= s.len() && g == #[trigger] gram_at(s, i, size),
    )
}

/// The distinct substrings of `s` that are `size` characters long, each
/// once, in the order they first occur.
pub fn get_ngrams(s: &str, size: usize) -> (r: Vec<String>)
    ensures
        views(r@).no_duplicates(),
        views(r@).to_set() == ngram_set(s@, size as nat),
{
    let v = chars_of(s);
    let mut out: Vec<String> = Vec::new();
    if size == 0 || v.len() < size {
        assert(views(out@).to_set() =~= ngram_set(s@, size as nat)) by {
            assert(views(out@) =~= Seq::<Seq<char>>::empty());
        }
        return out;
    }
    let n = v.len();
    let last = n - size;
    let mut i: usize = 0;
    while i <= last
        invariant
            v@ == s@,
            n == v@.len(),
            size > 0,
            last + size == v@.len(),
            i <= last + 1,
            views(out@).no_duplicates(),
            views(out@).to_set() == Set::new(
                |g: Seq<char>| exists|k: int| 0 <= k < i && g == #[trigger] gram_at(v@, k, size as nat),
            ),
        decreases last + 1 - i,
    {
        let g = string_from_chars(copy_range(v.as_slice(), i, i + size).as_slice());
        let ghost before = views(out@);
        if !contains_string(&out, &g) {
            out.push(g);
            assert(views(out@) =~= before.push(g@));
        }
        assert(views(out@).to_set() =~= Set::new(
            |q: Seq<char>| exists|k: int| 0 <= k < i + 1 && q == #[trigger] gram_at(v@, k, size as nat),
        )) by {
            assert forall|q: Seq<char>|
                views(out@).to_set().contains(q) implies exists|k: int|
                0 <= k < i + 1 && q == #[trigger] gram_at(v@, k, size as nat) by {
                if q != g@ {
                    assert(before.to_set().contains(q));
                } else {
                    assert(q == gram_at(v@, i as int, size as nat));
                }
            }
            assert forall|q: Seq<char>|
                (exists|k: int| 0 <= k < i + 1 && q == #[trigger] gram_at(v@, k, size as nat)) implies views(
                out@,
            ).to_set().contains(q) by {
                let k = choose|k: int| 0 <= k < i + 1 && q == gram_at(v@, k, size as nat);
                if k < i {
                    assert(before.to_set().contains(q));
                    assert(before.contains(q));
                    let w = choose|w: int| 0 <= w < before.len() && before[w] == q;
                    assert(views(out@)[w] == q);
                } else {
                    assert(q == g@);
                    if before.contains(q) {
                        let w = choose|w: int| 0 <= w < before.len() && before[w] == q;
                        assert(views(out@)[w] == q);
                    } else {
                        assert(views(out@)[views(out@).len() - 1] == q);
                    }
                }
            }
        }
        i = i + 1;
    }
    assert(views(out@).to_set() =~= ngram_set(s@, size as nat));
    out
}

/// The size of the overlap of the bigram sets of `a` and `b`, and the sizes
/// of the two sets: what the Sørensen-Dice coefficient is computed from.
pub fn bigram_overlap(a: &str, b: &str) -> (r: (usize, usize, usize))
    ensures
        r.0 == ngram_set(a@, 2).intersect(ngram_set(b@, 2)).len(),
        r.1 == ngram_set(a@, 2).len(),
        r.2 == ngram_set(b@, 2).len(),
{
    let ga = get_ngrams(a, 2);
    let gb = get_ngrams(b, 2);
    let ghost va = views(ga@);
    let ghost vb = views(gb@);
    let mut count: usize = 0;
    let ghost mut common: Seq<Seq<char>> = Seq::empty();
    let mut i: usize = 0;
    while i < ga.len()
        invariant
            va == views(ga@),
            vb == views(gb@),
            va.no_duplicates(),
            i <= ga@.len(),
            count == common.len(),
            count <= i,
            common.no_duplicates(),
            forall|q: Seq<char>| #[trigger]
                common.contains(q) <==> (va.take(i as int).contains(q) && vb.contains(q)),
        decreases ga@.len() - i,
    {
        let ghost x = va[i as int];
        let ghost old_common = common;
        assert(ga@[i as int]@ == x);
        let found = contains_string(&gb, &ga[i]);
        if found {
            proof {
                assert(!common.contains(x)) by {
                    if common.contains(x) {
                        assert(va.take(i as int).contains(x));
                        let w = choose|w: int| 0 <= w < i && va.take(i as int)[w] == x;
                        assert(va[w] == va[i as int]);
                    }
                }
                common = common.push(x);
            }
            count = count + 1;
        }
        proof {
            assert(va.take(i + 1) =~= va.take(i as int).push(x));
            assert forall|q: Seq<char>| #[trigger]
                common.contains(q) <==> (va.take(i + 1).contains(q) && vb.contains(q)) by {
                let t = va.take(i as int);
                if t.push(x).contains(q) && !t.contains(q) {
                    let w = choose|w: int| 0 <= w < t.push(x).len() && t.push(x)[w] == q;
                    if w < t.len() {
                        assert(t.contains(q));
                    }
                    assert(q == x);
                }
                if t.contains(q) {
                    let w = choose|w: int| 0 <= w < t.len() && t[w] == q;
                    assert(t.push(x)[w] == q);
                }
                if q == x {
                    assert(t.push(x)[t.len() as int] == x);
                }
                if found {
                    assert(common == old_common.push(x));
                    if common.contains(q) && !old_common.contains(q) {
                        let w = choose|w: int| 0 <= w < common.len() && common[w] == q;
                        if w < old_common.len() {
                            assert(old_common[w] == q);
                        }
                        assert(q == x);
                    }
                    if old_common.contains(q) {
                        let w = choose|w: int| 0 <= w < old_common.len() && old_common[w] == q;
                        assert(common[w] == q);
                    }
                    if q == x {
                        assert(common[old_common.len() as int] == x);
                    }
                }
            }
        }
        i = i + 1;
    }
    proof {
        assert(va.take(i as int) =~= va);
        assert(common.to_set() =~= ngram_set(a@, 2).intersect(ngram_set(b@, 2)));
        common.unique_seq_to_set();
        va.unique_seq_to_set();
        vb.unique_seq_to_set();
    }
    (count, ga.len(), gb.len())
}

/// Whether the `regex` crate's `\\w` class matches the non-ASCII
/// character `c` (Unicode word characters).
pub uninterp spec fn unicode_word_char(c: char) -> bool;

/// The `regex` crate's `\\w` class: among ASCII characters the letters,
/// digits and underscore, beyond ASCII the Unicode word characters.
pub open spec fn is_word_char(c: char) -> bool {
    if (c as u32) < 128 {
        ('a' <= c && c <= 'z') || ('A' <= c && c <= 'Z') || ('0' <= c && c <= '9') || c == '_'
    } else {
        unicode_word_char(c)
    }
}

/// Asks the `regex` crate whether `\\w` matches the single non-ASCII
/// character `c`.
#[verifier::external_body]
fn regex_word_char(c: char) -> (r: bool)
    requires
        (c as u32) >= 128,
    ensures
        r == unicode_word_char(c),
{
    let mut buf = [0u8; 4];
    match regex::Regex::new(r"\A\w\z") {
        Ok(re) => re.is_match(c.encode_utf8(&mut buf)),
        Err(_) => false,
    }
}

/// Whether `\\w` matches `c`.
fn word_char(c: char) -> (r: bool)
    ensures
        r == is_word_char(c),
{
    if (c as u32) < 128 {
        ('a' <= c && c <= 'z') || ('A' <= c && c <= 'Z') || ('0' <= c && c <= '9') || c == '_'
    } else {
        regex_word_char(c)
    }
}

/// A character as the cleaning step leaves it: word characters and white
/// space stay, anything else becomes a space (`[^\\w\\s]` replaced by `" "`).
pub open spec fn clean_char(c: char) -> char {
    if is_word_char(c) || is_ws(c) {
        c
    } else {
        ' '
    }
}

/// `s` with every run of white space replaced by one space (`\\s+`
/// replaced by `" "`).
pub open spec fn squeeze_ws(s: Seq<char>) -> Seq<char>
    decreases s.len(),
{
    if s.len() == 0 {
        s
    } else {
        let p = squeeze_ws(s.drop_last());
        if is_ws(s.last()) {
            if s.len() >= 2 && is_ws(s[s.len() - 2]) {
                p
            } else {
                p.push(' ')
            }
        } else {
            p.push(s.last())
        }
    }
}

/// The words of `s` joined by single spaces (`split_whitespace` then
/// `join(" ")`).
pub open spec fn words_joined(s: Seq<char>) -> Seq<char> {
    trim(squeeze_ws(s))
}

/// Text normalized for comparison: lowercased, every character that is
/// neither a word character nor white space turned into a space, white
/// space runs squeezed to one space, and trimmed.
pub open spec fn normalized_text(s: Seq<char>) -> Seq<char> {
    if s.len() == 0 {
        Seq::empty()
    } else {
        words_joined(lowercase(s).map_values(|c: char| clean_char(c)))
    }
}

/// `v` with white space runs squeezed to one space and trimmed, after
/// mapping each character through `clean_char` when `clean` is set.
pub(crate) fn squeeze_and_trim(v: &Vec<char>, clean: bool) -> (r: Vec<char>)
    ensures
        r@ == words_joined(
            if clean {
                v@.map_values(|c: char| clean_char(c))
            } else {
                v@
            },
        ),
{
    let ghost src = if clean {
        v@.map_values(|c: char| clean_char(c))
    } else {
        v@
    };
    let mut out: Vec<char> = Vec::new();
    let mut prev_ws = false;
    let mut i: usize = 0;
    while i < v.len()
        invariant
            i <= v@.len(),
            src == (if clean {
                v@.map_values(|c: char| clean_char(c))
            } else {
                v@
            }),
            src.len() == v@.len(),
            out@ == squeeze_ws(src.take(i as int)),
            prev_ws == (i > 0 && is_ws(src[i - 1])),
        decreases v@.len() - i,
    {
        let c0 = v[i];
        let c = if clean {
            if word_char(c0) || char_is_ws(c0) {
                c0
            } else {
                ' '
            }
        } else {
            c0
        };
        assert(c == src[i as int]);
        assert(src.take(i + 1).drop_last() =~= src.take(i as int));
        if char_is_ws(c) {
            if !prev_ws {
                out.push(' ');
            }
            prev_ws = true;
        } else {
            out.push(c);
            prev_ws = false;
        }
        i = i + 1;
    }
    assert(src.take(i as int) =~= src);
    let (lo, hi) = trim_bounds(out.as_slice(), 0, out.len());
    assert(out@.subrange(0, out@.len() as int) =~= out@);
    copy_range(out.as_slice(), lo, hi)
}

/// Normalizes text for comparison: lowercase, punctuation to spaces, white
/// space squeezed, trimmed.
pub fn normalize_string(s: &str) -> (r: String)
    ensures
        r@ == normalized_text(s@),
{
    if s.is_empty() {
        return String::new();
    }
    let lower = to_lowercase(s);
    let v = chars_of(lower.as_str());
    let out = squeeze_and_trim(&v, true);
    string_from_chars(out.as_slice())
}

/// Whether `s` holds none of `-`, `(` and `[`, the characters that the
/// version-tag and bracket patterns of title analysis start with.
pub open spec fn no_tag_marks(s: Seq<char>) -> bool {
    forall|i: int| 0 <= i < s.len() ==> #[trigger] s[i] != '-' && s[i] != '(' && s[i] != '['
}

proof fn lemma_squeeze_no_tag_marks(s: Seq<char>)
    requires
        no_tag_marks(s),
    ensures
        no_tag_marks(squeeze_ws(s)),
    decreases s.len(),
{
    if s.len() > 0 {
        assert(no_tag_marks(s.drop_last())) by {
            assert forall|i: int| 0 <= i < s.drop_last().len() implies #[trigger] s.drop_last()[i]
                != '-' && s.drop_last()[i] != '(' && s.drop_last()[i] != '[' by {
                assert(s.drop_last()[i] == s[i]);
            }
        }
        lemma_squeeze_no_tag_marks(s.drop_last());
        assert(s.last() == s[s.len() - 1]);
    }
}

proof fn lemma_trim_no_tag_marks(s: Seq<char>)
    requires
        no_tag_marks(s),
    ensures
        no_tag_marks(trim_start(s)),
        no_tag_marks(trim_end(s)),
    decreases s.len(),
{
    if s.len() > 0 {
        assert(no_tag_marks(s.drop_first())) by {
            assert forall|i: int| 0 <= i < s.drop_first().len() implies #[trigger] s.drop_first()[i]
                != '-' && s.drop_first()[i] != '(' && s.drop_first()[i] != '[' by {
                assert(s.drop_first()[i] == s[i + 1]);
            }
        }
        assert(no_tag_marks(s.drop_last())) by {
            assert forall|i: int| 0 <= i < s.drop_last().len() implies #[trigger] s.drop_last()[i]
                != '-' && s.drop_last()[i] != '(' && s.drop_last()[i] != '[' by {
                assert(s.drop_last()[i] == s[i]);
            }
        }
        lemma_trim_no_tag_marks(s.drop_first());
        lemma_trim_no_tag_marks(s.drop_last());
    }
}

/// Normalized text holds no `-`, `(` or `[`: those characters are neither
/// word characters nor white space, so cleaning turns them into spaces.
pub proof fn lemma_normalized_no_tag_marks(s: Seq<char>)
    ensures
        no_tag_marks(normalized_text(s)),
{
    if s.len() > 0 {
        let cleaned = lowercase(s).map_values(|c: char| clean_char(c));
        assert(no_tag_marks(cleaned)) by {
            assert forall|i: int| 0 <= i < cleaned.len() implies #[trigger] cleaned[i] != '-'
                && cleaned[i] != '(' && cleaned[i] != '[' by {
                assert(cleaned[i] == clean_char(lowercase(s)[i]));
            }
        }
        lemma_squeeze_no_tag_marks(cleaned);
        lemma_trim_no_tag_marks(squeeze_ws(cleaned));
        lemma_trim_no_tag_marks(trim_start(squeeze_ws(cleaned)));
    }
}

/// Splits a title into its base and its version tags (remix, live,
/// acoustic, ...).
///
/// Why there are never any tags: the tags, and the bracketed parts and the
/// text after ` - ` to strip from the base, are all looked for in the
/// *normalized* title, and each needs a `-`, `(` or `[` to be found.
/// Normalization (`normalized_text`) keeps only word characters and single
/// spaces, so none of those characters is left
/// (`lemma_normalized_no_tag_marks`): no tag can be found and nothing is
/// stripped. The base is the normalized title and the tag list is empty,
/// whatever the title.
pub fn analyze_title(title: &str) -> (r: (String, Vec<String>))
    ensures
        r.0@ == normalized_text(title@),
        r.1@.len() == 0,
{
    proof {
        lemma_normalized_no_tag_marks(title@);
    }
    (normalize_string(title), Vec::new())
}


/// Where a search candidate keeps its fields: under `attributes` when it
/// has them, else at its top.
pub open spec fn candidate_fields(candidate: JsonValue) -> JsonValue {
    match member(Some(candidate), "attributes"@) {
        Some(a) => a,
        None => candidate,
    }
}

/// The value of the first of `keys` that `obj` has, read as text: none when
/// no key is there or that value is not text (later keys are then not
/// looked at).
pub open spec fn first_text(obj: JsonValue, keys: Seq<Seq<char>>) -> Option<Seq<char>>
    decreases keys.len(),
{
    if keys.len() == 0 {
        None
    } else {
        match member(Some(obj), keys[0]) {
            Some(v) => as_text(Some(v)),
            None => first_text(obj, keys.drop_first()),
        }
    }
}

/// Reads the first of `keys` that `obj` has, as text (see `first_text`).
fn first_text_of(obj: &JsonValue, keys: &[&str]) -> (r: Option<String>)
    ensures
        opt_view(r) == first_text(*obj, keys@.map_values(|k: &str| k@)),
{
    let ghost ks = keys@.map_values(|k: &str| k@);
    assert(ks.skip(0) =~= ks);
    let mut i: usize = 0;
    while i < keys.len()
        invariant
            i <= keys@.len(),
            ks == keys@.map_values(|k: &str| k@),
            first_text(*obj, ks) == first_text(*obj, ks.skip(i as int)),
        decreases keys@.len() - i,
    {
        assert(ks.skip(i as int)[0] == keys@[i as int]@);
        assert(ks.skip(i as int).drop_first() =~= ks.skip(i + 1));
        match get(obj, keys[i]) {
            Some(v) => {
                return text_of(Some(v));
            },
            None => {},
        }
        i = i + 1;
    }
    assert(ks.skip(i as int).len() == 0);
    None
}

/// The title, artist and album a search candidate gives, from its fields
/// (see `candidate_fields`): the title from `name`, `title` or
/// `track_name`, the artist from `artistName`, `artist` or `artist_name`,
/// the album from `albumName`, `album`, `album_name` or `album_vanity_id`;
/// each from the first of its keys present, none when that is not text or
/// no key is there (see `first_text`).
pub fn candidate_texts(candidate: &JsonValue) -> (r: (Option<String>, Option<String>, Option<String>))
    ensures
        ({
            let f = candidate_fields(*candidate);
            &&& opt_view(r.0) == first_text(f, seq!["name"@, "title"@, "track_name"@])
            &&& opt_view(r.1) == first_text(f, seq!["artistName"@, "artist"@, "artist_name"@])
            &&& opt_view(r.2) == first_text(
                f,
                seq!["albumName"@, "album"@, "album_name"@, "album_vanity_id"@],
            )
        }),
{
    let fields = match get(candidate, "attributes") {
        Some(a) => a,
        None => candidate,
    };
    let title_keys = ["name", "title", "track_name"];
    let artist_keys = ["artistName", "artist", "artist_name"];
    let album_keys = ["albumName", "album", "album_name", "album_vanity_id"];
    let title = first_text_of(fields, &title_keys);
    let artist = first_text_of(fields, &artist_keys);
    let album = first_text_of(fields, &album_keys);
    proof {
        assert(title_keys@.map_values(|k: &str| k@) =~= seq!["name"@, "title"@, "track_name"@]);
        assert(artist_keys@.map_values(|k: &str| k@) =~= seq![
            "artistName"@,
            "artist"@,
            "artist_name"@,
        ]);
        assert(album_keys@.map_values(|k: &str| k@) =~= seq![
            "albumName"@,
            "album"@,
            "album_name"@,
            "album_vanity_id"@,
        ]);
    }
    (title, artist, album)
}

} // verus!
