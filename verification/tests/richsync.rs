use lyricsmpris::richsync::{
    create_word_timing, richsync_lines, word_timing_from_offsets, RawChar, RawRichsyncLine, RawWord,
};
use lyricsmpris::types::LyricLine;
use serde_json::Value;

// The same conversion as the program's (seconds to whole milliseconds,
// non-finite values dropped, negative ones counted as 0).
fn ms(v: Option<&Value>) -> Option<u64> {
    v.and_then(|x| x.as_f64())
        .filter(|s| s.is_finite())
        .map(|s| (s * 1000.0).round().max(0.0) as u64)
}

fn text(v: Option<&Value>) -> Option<String> {
    v.and_then(|x| x.as_str()).map(|s| s.to_string())
}

fn parse_richsync_body(body: &str) -> Option<Vec<LyricLine>> {
    let value: Value = serde_json::from_str(body).ok()?;
    let arr = value.as_array()?;
    let raw: Vec<RawRichsyncLine> = arr
        .iter()
        .map(|l| RawRichsyncLine {
            ts: ms(l.pointer("/ts")),
            te: ms(l.pointer("/te")),
            text: text(l.get("x")).or_else(|| text(l.get("text"))),
            words: l.get("words").and_then(|w| w.as_array()).map(|ws| {
                ws.iter()
                    .map(|w| RawWord {
                        start: ms(w.get("start")),
                        end: ms(w.get("end")),
                        text: text(w.get("text")),
                    })
                    .collect()
            }),
            chars: l.get("l").and_then(|c| c.as_array()).map(|cs| {
                cs.iter()
                    .map(|c| RawChar { c: text(c.get("c")), o: ms(c.get("o")) })
                    .collect()
            }),
        })
        .collect();
    Some(richsync_lines(raw))
}

#[test]
fn test_fast_richsync_parsing_and_bridging() {
    let fast_richsync = r#"[
        {
            "ts": 119.38,
            "te": 120.355,
            "l": [
                {"c": "And", "o": 0},
                {"c": " ", "o": 0.068},
                {"c": "the", "o": 0.137},
                {"c": " ", "o": 0.154},
                {"c": "kids", "o": 0.171},
                {"c": " ", "o": 0.187},
                {"c": "in", "o": 0.195},
                {"c": " ", "o": 0.203},
                {"c": "the", "o": 0.254},
                {"c": " ", "o": 0.371},
                {"c": "dark", "o": 0.405},
                {"c": " ", "o": 0.421},
                {"c": "that", "o": 0.438},
                {"c": " ", "o": 0.522},
                {"c": "were", "o": 0.538},
                {"c": " ", "o": 0.623},
                {"c": "doomed", "o": 0.64},
                {"c": " ", "o": 0.774},
                {"c": "from", "o": 0.79},
                {"c": " ", "o": 0.859},
                {"c": "the", "o": 0.875},
                {"c": " ", "o": 0.891},
                {"c": "start", "o": 0.907}
            ],
            "x": "And the kids in the dark that were doomed from the start"
        }
    ]"#;

    let parsed = parse_richsync_body(fast_richsync).expect("Should parse fast richsync body");
    assert_eq!(parsed.len(), 1);

    let line = &parsed[0];
    let words = line.words.as_ref().expect("Should have words timing");
    assert_eq!(words.len(), 12);

    for word in words {
        let duration = word.end_ms - word.start_ms;
        assert!(
            duration >= 39,
            "Word '{}' duration {}ms should be >= 40ms",
            word.text,
            duration
        );
    }

    let and_word = &words[0];
    let the_word = &words[1];
    assert_eq!(and_word.text, "And");
    assert_eq!(the_word.text, "the");
    assert_eq!(
        and_word.end_ms, the_word.start_ms,
        "End of 'And' ({}) should bridge directly to start of 'the' ({})",
        and_word.end_ms, the_word.start_ms
    );
}

#[test]
fn test_additional_fast_lines_parsing_and_bridging() {
    let fast_richsync_batch = r#"[
        {"ts":120.96,"te":122.015,"l":[{"c":"The","o":0},{"c":" ","o":0.073},{"c":"child","o":0.146},{"c":" ","o":0.179},{"c":"in","o":0.187},{"c":" ","o":0.196},{"c":"the","o":0.213},{"c":" ","o":0.246},{"c":"basement,","o":0.413},{"c":" ","o":0.58},{"c":"face","o":0.596},{"c":" ","o":0.713},{"c":"to","o":0.73},{"c":" ","o":0.747},{"c":"the","o":0.765},{"c":" ","o":0.8159},{"c":"pavement","o":0.832}],"x":"The child in the basement, face to the pavement"},
        {"ts":122.79,"te":123.744,"l":[{"c":"Oh,","o":0},{"c":" ","o":0.016},{"c":"what","o":0.033},{"c":" ","o":0.066},{"c":"a","o":0.074},{"c":" ","o":0.083},{"c":"statement,","o":0.116},{"c":" ","o":0.534},{"c":"love","o":0.551},{"c":" ","o":0.684},{"c":"is","o":0.701},{"c":" ","o":0.751},{"c":"embracement","o":0.835}],"x":"Oh, what a statement, love is embracement"},
        {"ts":124.27,"te":125.07,"l":[{"c":"Love","o":0},{"c":" ","o":0.138},{"c":"is","o":0.145},{"c":" ","o":0.153},{"c":"a","o":0.162},{"c":" ","o":0.171},{"c":"constant,","o":0.196},{"c":" ","o":0.222},{"c":"love","o":0.239},{"c":" ","o":0.321},{"c":"is","o":0.338},{"c":" ","o":0.406},{"c":"a","o":0.413},{"c":" ","o":0.421},{"c":"basis","o":0.472}],"x":"Love is a constant, love is a basis"},
        {"ts":125.65,"te":127.966,"l":[{"c":"He","o":0},{"c":" ","o":0.053},{"c":"cannot","o":0.106},{"c":" ","o":0.159},{"c":"be,","o":0.177},{"c":" ","o":0.195},{"c":"she","o":0.224},{"c":" ","o":0.308},{"c":"cannot","o":0.359},{"c":" ","o":0.611},{"c":"be,","o":0.626},{"c":" ","o":0.895},{"c":"they","o":0.911},{"c":" ","o":1.213},{"c":"cannot","o":1.314},{"c":" ","o":1.466},{"c":"be","o":1.49},{"c":" ","o":1.5149},{"c":"changed","o":1.549}],"x":"He cannot be, she cannot be, they cannot be changed"}
    ]"#;

    let parsed =
        parse_richsync_body(fast_richsync_batch).expect("Should parse fast batch richsync body");
    assert_eq!(parsed.len(), 4);

    for line in &parsed {
        let words = line
            .words
            .as_ref()
            .expect("Each line should have word timing data");
        assert!(!words.is_empty());

        for i in 0..words.len() {
            let word = &words[i];
            let duration = word.end_ms - word.start_ms;
            assert!(
                duration >= 39,
                "Line '{}' -> Word '{}' duration {}ms should be >= 40ms",
                line.text,
                word.text,
                duration
            );

            if i + 1 < words.len() {
                let next_word = &words[i + 1];
                if next_word.start_ms - word.start_ms <= 400 {
                    assert!(
                        word.end_ms >= next_word.start_ms,
                        "Word '{}' end ({}) should bridge to next word '{}' start ({})",
                        word.text,
                        word.end_ms,
                        next_word.text,
                        next_word.start_ms
                    );
                }
            }
        }
    }
}

#[test]
fn word_graphemes_split_evenly_over_the_word() {
    let body = r#"[{"ts":1.0,"te":2.0,"words":[{"start":1.0,"end":1.3,"text":"héllo"}],"x":"héllo"}]"#;
    let parsed = parse_richsync_body(body).unwrap();
    let w = &parsed[0].words.as_ref().unwrap()[0];
    assert_eq!(w.grapheme_boundaries, vec![0, 1, 3, 4, 5, 6]);
    assert_eq!(w.grapheme_count(), 5);
    assert_eq!(w.grapheme_times_ms, vec![1060, 1120, 1180, 1240]);
    assert_eq!(parsed[0].time_ms, 1000);
}

#[test]
fn word_timings_from_grapheme_offsets() {
    // "héllo": 'é' takes two bytes, so the graphemes start at 0, 1, 3, 4, 5.
    let w = word_timing_from_offsets(0, 1000, "héllo".to_string(), &vec![0, 1, 3, 4, 5]);
    assert_eq!(w.grapheme_boundaries, vec![0, 1, 3, 4, 5, 6]);
    assert_eq!(w.grapheme_times_ms, vec![200, 400, 600, 800]);
    assert_eq!(w.grapheme_count(), 5);

    let same = create_word_timing(0, 1000, "héllo".to_string());
    assert_eq!(same.grapheme_boundaries, w.grapheme_boundaries);
    assert_eq!(same.grapheme_times_ms, w.grapheme_times_ms);

    // A word without duration highlights every grapheme at its start.
    let flat = word_timing_from_offsets(500, 400, "ab".to_string(), &vec![0, 1]);
    assert_eq!(flat.grapheme_times_ms, vec![500]);
}
