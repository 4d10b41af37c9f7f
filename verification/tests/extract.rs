use lyricsmpris::json::{extract_track_ids_from_json, JsonValue};

fn s(v: &str) -> JsonValue {
    JsonValue::Str(v.to_string())
}

fn obj(members: Vec<(&str, JsonValue)>) -> JsonValue {
    JsonValue::Object(members.into_iter().map(|(k, v)| (k.to_string(), v)).collect())
}

fn strings(v: &[&str]) -> Vec<String> {
    v.iter().map(|x| x.to_string()).collect()
}

fn single_fields() -> JsonValue {
    obj(vec![
        ("track_isrc", s("USUM72345678")),
        ("track_spotify_id", s("6rqhFg4Kj6gIwR5v")),
        ("track_itunes_id", s("123456789")),
    ])
}

fn missing_fields() -> JsonValue {
    obj(vec![("track_name", s("Test Song"))])
}

#[test]
fn extract_test_extract_track_ids_from_json() {
    let ids = extract_track_ids_from_json(&single_fields());
    assert_eq!(ids.track_isrcs, strings(&["USUM72345678"]));
    assert_eq!(ids.track_spotify_ids, strings(&["6rqhFg4Kj6gIwR5v"]));
    assert_eq!(ids.track_itunes_ids, strings(&["123456789"]));
}

#[test]
fn extract_test_extract_track_ids_from_json_array_fields() {
    let json = obj(vec![
        ("track_isrc", s("EEUL32203751")),
        (
            "commontrack_isrcs",
            JsonValue::Array(vec![JsonValue::Array(vec![s("EEUL32203751"), s("GBKPL2177541")])]),
        ),
        ("track_spotify_id", s("5FVd6KXrgO9B3JPmC8OPst")),
        (
            "commontrack_spotify_ids",
            JsonValue::Array(vec![s("5FVd6KXrgO9B3JPmC8OPst"), s("2UzMpPKPhbcC8RbsmuURAZ")]),
        ),
        (
            "commontrack_itunes_ids",
            JsonValue::Array(vec![JsonValue::Int(1442699400), JsonValue::Int(776001036)]),
        ),
    ]);
    let ids = extract_track_ids_from_json(&json);
    assert_eq!(ids.track_isrcs, strings(&["EEUL32203751", "GBKPL2177541"]));
    assert_eq!(
        ids.track_spotify_ids,
        strings(&["5FVd6KXrgO9B3JPmC8OPst", "2UzMpPKPhbcC8RbsmuURAZ"])
    );
    assert_eq!(ids.track_itunes_ids, strings(&["1442699400", "776001036"]));
}

#[test]
fn extract_test_extract_track_ids_missing() {
    let ids = extract_track_ids_from_json(&missing_fields());
    assert!(ids.track_isrcs.is_empty());
    assert!(ids.track_spotify_ids.is_empty());
    assert!(ids.track_itunes_ids.is_empty());
}

#[test]
fn musixmatch_test_extract_track_ids_from_json() {
    let ids = extract_track_ids_from_json(&single_fields());
    assert_eq!(ids.track_isrcs.first().cloned(), Some("USUM72345678".to_string()));
    assert_eq!(ids.track_spotify_ids.first().cloned(), Some("6rqhFg4Kj6gIwR5v".to_string()));
    assert_eq!(ids.track_itunes_ids.first().cloned(), Some("123456789".to_string()));
}

#[test]
fn musixmatch_test_extract_track_ids_from_json_array_fields() {
    let json = obj(vec![
        (
            "commontrack_isrcs",
            JsonValue::Array(vec![JsonValue::Array(vec![s("GBCEL1300362")])]),
        ),
        (
            "commontrack_spotify_ids",
            JsonValue::Array(vec![s("5FVd6KXrgO9B3JPmC8OPst")]),
        ),
        (
            "commontrack_itunes_ids",
            JsonValue::Array(vec![JsonValue::Int(1442699400)]),
        ),
    ]);
    let ids = extract_track_ids_from_json(&json);
    assert_eq!(ids.track_isrcs.first().cloned(), Some("GBCEL1300362".to_string()));
    assert_eq!(
        ids.track_spotify_ids.first().cloned(),
        Some("5FVd6KXrgO9B3JPmC8OPst".to_string())
    );
    assert_eq!(ids.track_itunes_ids.first().cloned(), Some("1442699400".to_string()));
}

#[test]
fn musixmatch_test_extract_track_ids_missing() {
    let ids = extract_track_ids_from_json(&missing_fields());
    assert_eq!(ids.track_isrcs.first().cloned(), None);
    assert_eq!(ids.track_spotify_ids.first().cloned(), None);
    assert_eq!(ids.track_itunes_ids.first().cloned(), None);
}

#[test]
fn identifiers_are_trimmed_and_deduplicated_ignoring_case() {
    let json = obj(vec![
        ("track_spotify_id", s("  abc ")),
        (
            "commontrack_spotify_ids",
            JsonValue::Array(vec![s("ABC"), s(""), JsonValue::Null, s("def"), JsonValue::Int(-7)]),
        ),
    ]);
    let ids = extract_track_ids_from_json(&json);
    assert_eq!(ids.track_spotify_ids, strings(&["abc", "def", "-7"]));
}
