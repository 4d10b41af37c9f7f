//! A JSON document as the lyrics services answer it, and the reading of
//! track identifiers and status codes out of it. Numbers are kept when they
//! are integers that fit `i64`, which is all the reading here needs.

use vstd::prelude::*;
use crate::cache::with_extra_id;
use crate::metadata::opt_view;
use crate::text::{chars_of, copy_range, same_text, string_from_chars, trim, trim_bounds, views};
use crate::types::TrackMatchInfo;
use crate::cache::merge_track_id;

verus! {

/// A JSON value.
#[derive(Debug)]
pub enum JsonValue {
    Null,
    Bool(bool),
    /// A number that is an integer within `i64`.
    Int(i64),
    /// Any other number.
    OtherNumber,
    Str(String),
    Array(Vec<JsonValue>),
    /// Members in document order; keys are unique.
    Object(Vec<(String, JsonValue)>),
}

/// The value of the first member of `entries[i..]` named `key`.
pub open spec fn find_member(entries: Seq<(String, JsonValue)>, key: Seq<char>, i: int) -> Option<
    JsonValue,
>
    decreases entries.len() - i,
{
    if i < 0 || i >= entries.len() {
        None
    } else if entries[i].0@ == key {
        Some(entries[i].1)
    } else {
        find_member(entries, key, i + 1)
    }
}

/// The member `key` of an object (`Value::get` with a string).
pub open spec fn member(v: Option<JsonValue>, key: Seq<char>) -> Option<JsonValue> {
    match v {
        Some(JsonValue::Object(entries)) => find_member(entries@, key, 0),
        _ => None,
    }
}

/// The element `idx` of an array.
pub open spec fn element(v: Option<JsonValue>, idx: int) -> Option<JsonValue> {
    match v {
        Some(JsonValue::Array(items)) => if 0 <= idx < items@.len() {
            Some(items@[idx])
        } else {
            None
        },
        _ => None,
    }
}

/// The integer held by a value (`Value::as_i64`).
pub open spec fn as_int(v: Option<JsonValue>) -> Option<i64> {
    match v {
        Some(JsonValue::Int(i)) => Some(i),
        _ => None,
    }
}

/// The text held by a value (`Value::as_str`).
pub open spec fn as_text(v: Option<JsonValue>) -> Option<Seq<char>> {
    match v {
        Some(JsonValue::Str(s)) => Some(s@),
        _ => None,
    }
}

/// The member `key` of `v`, when `v` is an object that has one.
pub fn get<'a>(v: &'a JsonValue, key: &str) -> (r: Option<&'a JsonValue>)
    ensures
        match r {
            Some(x) => member(Some(*v), key@) == Some(*x),
            None => member(Some(*v), key@) is None,
        },
{
    match v {
        JsonValue::Object(entries) => {
            let mut i: usize = 0;
            while i < entries.len()
                invariant
                    i <= entries@.len(),
                    member(Some(*v), key@) == find_member(entries@, key@, 0),
                    find_member(entries@, key@, 0) == find_member(entries@, key@, i as int),
                decreases entries@.len() - i,
            {
                if same_text(entries[i].0.as_str(), key) {
                    return Some(&entries[i].1);
                }
                i = i + 1;
            }
            None
        },
        _ => None,
    }
}

/// The member `key` of an optional value.
pub fn get_in<'a>(v: Option<&'a JsonValue>, key: &str) -> (r: Option<&'a JsonValue>)
    ensures
        match r {
            Some(x) => member(opt_deref(v), key@) == Some(*x),
            None => member(opt_deref(v), key@) is None,
        },
{
    match v {
        Some(x) => get(x, key),
        None => None,
    }
}

/// The value an optional reference points to.
pub open spec fn opt_deref(v: Option<&JsonValue>) -> Option<JsonValue> {
    match v {
        Some(x) => Some(*x),
        None => None,
    }
}

/// The element `idx` of an optional array.
pub fn at_in<'a>(v: Option<&'a JsonValue>, idx: usize) -> (r: Option<&'a JsonValue>)
    ensures
        match r {
            Some(x) => element(opt_deref(v), idx as int) == Some(*x),
            None => element(opt_deref(v), idx as int) is None,
        },
{
    match v {
        Some(JsonValue::Array(items)) => {
            if idx < items.len() {
                Some(&items[idx])
            } else {
                None
            }
        },
        _ => None,
    }
}

/// The integer held by an optional value.
pub fn int_of(v: Option<&JsonValue>) -> (r: Option<i64>)
    ensures
        r == as_int(opt_deref(v)),
{
    match v {
        Some(JsonValue::Int(i)) => Some(*i),
        _ => None,
    }
}

/// The text held by an optional value.
pub fn text_of(v: Option<&JsonValue>) -> (r: Option<String>)
    ensures
        opt_view(r) == as_text(opt_deref(v)),
{
    match v {
        Some(JsonValue::Str(s)) => Some(s.clone()),
        _ => None,
    }
}

/// The decimal digits of `n`.
pub open spec fn decimal(n: nat) -> Seq<char>
    decreases n,
{
    if n < 10 {
        seq![digit_char(n)]
    } else {
        decimal(n / 10).push(digit_char(n % 10))
    }
}

/// The character of the decimal digit `d`.
pub open spec fn digit_char(d: nat) -> char {
    if d == 0 {
        '0'
    } else if d == 1 {
        '1'
    } else if d == 2 {
        '2'
    } else if d == 3 {
        '3'
    } else if d == 4 {
        '4'
    } else if d == 5 {
        '5'
    } else if d == 6 {
        '6'
    } else if d == 7 {
        '7'
    } else if d == 8 {
        '8'
    } else {
        '9'
    }
}

fn digit(d: u64) -> (r: char)
    requires
        d < 10,
    ensures
        r == digit_char(d as nat),
{
    if d == 0 {
        '0'
    } else if d == 1 {
        '1'
    } else if d == 2 {
        '2'
    } else if d == 3 {
        '3'
    } else if d == 4 {
        '4'
    } else if d == 5 {
        '5'
    } else if d == 6 {
        '6'
    } else if d == 7 {
        '7'
    } else if d == 8 {
        '8'
    } else {
        '9'
    }
}

/// The decimal text of `n` (`u64::to_string`).
pub fn decimal_string(n: u64) -> (r: String)
    ensures
        r@ == decimal(n as nat),
{
    let mut digits: Vec<char> = Vec::new();
    let mut m = n;
    // digits holds the last digits of n, least significant first
    while m >= 10
        invariant
            decimal(n as nat) == decimal(m as nat) + digits@.reverse(),
        decreases m,
    {
        let ghost old_digits = digits@;
        digits.push(digit(m % 10));
        proof {
            assert(decimal(m as nat) == decimal((m / 10) as nat).push(digit_char((m % 10) as nat)));
            assert(digits@.reverse() =~= seq![digit_char((m % 10) as nat)] + old_digits.reverse());
        }
        m = m / 10;
    }
    let mut out: Vec<char> = Vec::new();
    out.push(digit(m));
    let mut k = digits.len();
    while k > 0
        invariant
            k <= digits@.len(),
            decimal(n as nat) == out@ + digits@.take(k as int).reverse(),
        decreases k,
    {
        out.push(digits[k - 1]);
        proof {
            assert(digits@.take(k as int).reverse() =~= seq![digits@[k - 1]] + digits@.take(
                k - 1,
            ).reverse());
        }
        k = k - 1;
    }
    assert(digits@.take(0).reverse() =~= Seq::<char>::empty());
    assert(out@ =~= decimal(n as nat));
    string_from_chars(out.as_slice())
}

/// The decimal text of `i`, with a minus sign when negative
/// (`i64::to_string`).
pub open spec fn int_text(i: i64) -> Seq<char> {
    if i < 0 {
        seq!['-'] + decimal((-i) as nat)
    } else {
        decimal(i as nat)
    }
}

/// The decimal text of a signed integer.
pub fn int_string(i: i64) -> (r: String)
    ensures
        r@ == int_text(i),
{
    if i < 0 {
        let m: u64 = (-(i as i128)) as u64;
        let d = decimal_string(m);
        let mut v: Vec<char> = Vec::new();
        v.push('-');
        let w = chars_of(d.as_str());
        let mut k: usize = 0;
        while k < w.len()
            invariant
                k <= w@.len(),
                v@ == seq!['-'] + w@.take(k as int),
            decreases w@.len() - k,
        {
            v.push(w[k]);
            k = k + 1;
            assert(v@ =~= seq!['-'] + w@.take(k as int));
        }
        assert(w@.take(k as int) =~= w@);
        string_from_chars(v.as_slice())
    } else {
        decimal_string(i as u64)
    }
}

/// An identifier read from a value: its text or its integer in decimal,
/// trimmed; none when that is empty or the value is neither.
pub open spec fn id_text(v: JsonValue) -> Option<Seq<char>> {
    let t = match v {
        JsonValue::Str(s) => Some(trim(s@)),
        JsonValue::Int(i) => Some(trim(int_text(i))),
        _ => None,
    };
    match t {
        Some(x) => if x.len() > 0 {
            Some(x)
        } else {
            None
        },
        None => None,
    }
}

/// Reads an identifier from a value.
pub fn extract_string_or_int(value: &JsonValue) -> (r: Option<String>)
    ensures
        opt_view(r) == id_text(*value),
{
    let s = match value {
        JsonValue::Str(s) => s.clone(),
        JsonValue::Int(i) => int_string(*i),
        _ => {
            return None;
        },
    };
    let v = chars_of(s.as_str());
    let (lo, hi) = trim_bounds(v.as_slice(), 0, v.len());
    assert(v@.subrange(0, v@.len() as int) =~= v@);
    if lo == hi {
        None
    } else {
        Some(string_from_chars(copy_range(v.as_slice(), lo, hi).as_slice()))
    }
}

/// `list` with the identifiers read from `items` added in order, each
/// unless already present up to ASCII case.
pub open spec fn add_ids(list: Seq<Seq<char>>, items: Seq<JsonValue>) -> Seq<Seq<char>>
    decreases items.len(),
{
    if items.len() == 0 {
        list
    } else {
        with_extra_id(add_ids(list, items.drop_last()), id_text(items.last()))
    }
}

/// Like `add_ids`, but an item that is itself an array contributes its
/// elements.
pub open spec fn add_nested_ids(list: Seq<Seq<char>>, items: Seq<JsonValue>) -> Seq<Seq<char>>
    decreases items.len(),
{
    if items.len() == 0 {
        list
    } else {
        let prev = add_nested_ids(list, items.drop_last());
        match items.last() {
            JsonValue::Array(inner) => add_ids(prev, inner@),
            other => with_extra_id(prev, id_text(other)),
        }
    }
}

/// The elements of an array value; none for anything else.
pub open spec fn array_items(v: Option<JsonValue>) -> Seq<JsonValue> {
    match v {
        Some(JsonValue::Array(items)) => items@,
        _ => Seq::empty(),
    }
}

/// The identifiers of a track from a single field and an array field.
pub open spec fn field_ids(track: JsonValue, single: Seq<char>, array: Seq<char>) -> Seq<Seq<char>> {
    let first = match member(Some(track), single) {
        Some(v) => with_extra_id(Seq::empty(), id_text(v)),
        None => Seq::empty(),
    };
    add_ids(first, array_items(member(Some(track), array)))
}

/// The ISRCs of a track: `track_isrc`, then the (possibly nested)
/// `commontrack_isrcs`.
pub open spec fn isrc_ids(track: JsonValue) -> Seq<Seq<char>> {
    let first = match member(Some(track), "track_isrc"@) {
        Some(v) => with_extra_id(Seq::empty(), id_text(v)),
        None => Seq::empty(),
    };
    add_nested_ids(first, array_items(member(Some(track), "commontrack_isrcs"@)))
}

/// Adds an identifier unless already present up to ASCII case.
fn add_id(list: &mut Vec<String>, value: &JsonValue)
    ensures
        views(final(list)@) == with_extra_id(views(old(list)@), id_text(*value)),
{
    let id = extract_string_or_int(value);
    let merged = merge_track_id(list.as_slice(), &id);
    *list = merged;
}

/// Adds the identifiers of all `items`.
fn add_all_ids(list: &mut Vec<String>, items: &Vec<JsonValue>)
    ensures
        views(final(list)@) == add_ids(views(old(list)@), items@),
{
    let ghost start = views(list@);
    let mut i: usize = 0;
    while i < items.len()
        invariant
            i <= items@.len(),
            views(list@) == add_ids(start, items@.take(i as int)),
        decreases items@.len() - i,
    {
        add_id(list, &items[i]);
        proof {
            assert(items@.take(i + 1).drop_last() =~= items@.take(i as int));
        }
        i = i + 1;
    }
    assert(items@.take(i as int) =~= items@);
}

/// The identifiers of `track` from the fields `single` and `array`, each
/// once up to ASCII case.
pub fn extract_all_strings_from_fields(track: &JsonValue, single: &str, array: &str) -> (r: Vec<
    String,
>)
    ensures
        views(r@) == field_ids(*track, single@, array@),
{
    let mut out: Vec<String> = Vec::new();
    assert(views(out@) =~= Seq::<Seq<char>>::empty());
    if let Some(v) = get(track, single) {
        add_id(&mut out, v);
    }
    let ghost first = views(out@);
    match get(track, array) {
        Some(JsonValue::Array(items)) => {
            add_all_ids(&mut out, items);
        },
        _ => {
            assert(array_items(member(Some(*track), array@)) =~= Seq::<JsonValue>::empty());
            assert(add_ids(first, Seq::<JsonValue>::empty()) == first);
        },
    }
    out
}

/// The ISRCs of `track`, each once up to ASCII case.
pub fn extract_all_isrcs_from_json(track: &JsonValue) -> (r: Vec<String>)
    ensures
        views(r@) == isrc_ids(*track),
{
    let mut out: Vec<String> = Vec::new();
    assert(views(out@) =~= Seq::<Seq<char>>::empty());
    if let Some(v) = get(track, "track_isrc") {
        add_id(&mut out, v);
    }
    let ghost first = views(out@);
    match get(track, "commontrack_isrcs") {
        Some(JsonValue::Array(items)) => {
            let ghost start = views(out@);
            let mut i: usize = 0;
            while i < items.len()
                invariant
                    i <= items@.len(),
                    views(out@) == add_nested_ids(start, items@.take(i as int)),
                decreases items@.len() - i,
            {
                match &items[i] {
                    JsonValue::Array(inner) => {
                        add_all_ids(&mut out, inner);
                    },
                    other => {
                        add_id(&mut out, other);
                    },
                }
                proof {
                    assert(items@.take(i + 1).drop_last() =~= items@.take(i as int));
                }
                i = i + 1;
            }
            assert(items@.take(i as int) =~= items@);
        },
        _ => {
            assert(array_items(member(Some(*track), "commontrack_isrcs"@)) =~= Seq::<
                JsonValue,
            >::empty());
            assert(add_nested_ids(first, Seq::<JsonValue>::empty()) == first);
        },
    }
    out
}

/// The identifiers of a Musixmatch track object.
pub open spec fn track_ids_of(track: JsonValue) -> (Seq<Seq<char>>, Seq<Seq<char>>, Seq<Seq<char>>) {
    (
        isrc_ids(track),
        field_ids(track, "track_spotify_id"@, "commontrack_spotify_ids"@),
        field_ids(track, "track_itunes_id"@, "commontrack_itunes_ids"@),
    )
}

/// Reads the ISRCs, Spotify ids and iTunes ids of a Musixmatch track object.
pub fn extract_track_ids_from_json(track: &JsonValue) -> (r: TrackMatchInfo)
    ensures
        (views(r.track_isrcs@), views(r.track_spotify_ids@), views(r.track_itunes_ids@))
            == track_ids_of(*track),
{
    TrackMatchInfo {
        track_isrcs: extract_all_isrcs_from_json(track),
        track_spotify_ids: extract_all_strings_from_fields(
            track,
            "track_spotify_id",
            "commontrack_spotify_ids",
        ),
        track_itunes_ids: extract_all_strings_from_fields(
            track,
            "track_itunes_id",
            "commontrack_itunes_ids",
        ),
    }
}

/// The track object of a macro response's calls: the one under
/// `matcher.track.get/message/body/track`, else the one under `track`.
pub open spec fn macro_track(calls: JsonValue) -> Option<JsonValue> {
    let matched = member(
        member(member(member(Some(calls), "matcher.track.get"@), "message"@), "body"@),
        "track"@,
    );
    if matched is Some {
        matched
    } else {
        member(Some(calls), "track"@)
    }
}

/// Reads the track identifiers from a macro response's calls; none when it
/// holds no track.
pub fn extract_track_ids_from_macro(calls: &JsonValue) -> (r: TrackMatchInfo)
    ensures
        match macro_track(*calls) {
            Some(t) => (views(r.track_isrcs@), views(r.track_spotify_ids@), views(
                r.track_itunes_ids@,
            )) == track_ids_of(t),
            None => r.track_isrcs@.len() == 0 && r.track_spotify_ids@.len() == 0
                && r.track_itunes_ids@.len() == 0,
        },
{
    let m = get_in(get_in(get_in(get(calls, "matcher.track.get"), "message"), "body"), "track");
    if let Some(t) = m {
        return extract_track_ids_from_json(t);
    }
    if let Some(t) = get(calls, "track") {
        return extract_track_ids_from_json(t);
    }
    TrackMatchInfo { track_isrcs: Vec::new(), track_spotify_ids: Vec::new(), track_itunes_ids: Vec::new() }
}

/// The status code in a response's `message/header/status_code`.
pub open spec fn status_code_of(v: Option<JsonValue>) -> Option<i64> {
    as_int(member(member(member(v, "message"@), "header"@), "status_code"@))
}

/// Reads the status code at the root of a Musixmatch response.
pub fn get_root_status_code(json: &JsonValue) -> (r: Option<i64>)
    ensures
        r == status_code_of(Some(*json)),
{
    int_of(get_in(get_in(get(json, "message"), "header"), "status_code"))
}

/// Whether the call `endpoint` of a macro response succeeded (status 200).
pub fn is_success(calls: &JsonValue, endpoint: &str) -> (r: bool)
    ensures
        r == (status_code_of(member(Some(*calls), endpoint@)) == Some(200i64)),
{
    let code = int_of(get_in(get_in(get_in(get(calls, endpoint), "message"), "header"), "status_code"));
    match code {
        Some(c) => c == 200,
        None => false,
    }
}

} // verus!
