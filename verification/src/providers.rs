//! Choosing and classifying lyrics providers: which provider a name means,
//! what a provider's answer means for the fetch, which format lyrics are
//! stored in, and the rotation of Musixmatch user tokens.

use vstd::prelude::*;
use crate::state::Provider;
use crate::text::{
    chars_of, contains_chars, contains_seq, skip_leading_ws, starts_with_seq, trim_start,
    matches_at, same_text, split_trimmed, trimmed_fields, views, copy_range,
};
use crate::types::{LyricLine, LyricsError, TrackMatchInfo};

verus! {

/// How cached lyrics are stored, so that they can be parsed back.
#[derive(Debug, Clone, Copy, PartialEq, Eq, Structural)]
pub enum LyricsFormat {
    /// LRC text (`[mm:ss.cc]line`), from LRCLIB.
    Lrclib,
    /// Musixmatch richsync JSON, with word timings.
    Richsync,
    /// Musixmatch subtitle JSON, with line timings.
    Subtitles,
}

pub open spec fn format_name(f: LyricsFormat) -> Seq<char> {
    match f {
        LyricsFormat::Lrclib => "lrclib"@,
        LyricsFormat::Richsync => "richsync"@,
        LyricsFormat::Subtitles => "subtitles"@,
    }
}

impl LyricsFormat {
    /// The name under which the format is stored.
    pub fn to_str(&self) -> (r: &'static str)
        ensures
            r@ == format_name(*self),
    {
        match self {
            LyricsFormat::Lrclib => "lrclib",
            LyricsFormat::Richsync => "richsync",
            LyricsFormat::Subtitles => "subtitles",
        }
    }

    /// The format stored under `s`, if `s` names one.
    pub fn from_str(s: &str) -> (r: Option<LyricsFormat>)
        ensures
            r == (if s@ == format_name(LyricsFormat::Lrclib) {
                Some(LyricsFormat::Lrclib)
            } else if s@ == format_name(LyricsFormat::Richsync) {
                Some(LyricsFormat::Richsync)
            } else if s@ == format_name(LyricsFormat::Subtitles) {
                Some(LyricsFormat::Subtitles)
            } else {
                None
            }),
    {
        if same_text(s, "lrclib") {
            Some(LyricsFormat::Lrclib)
        } else if same_text(s, "richsync") {
            Some(LyricsFormat::Richsync)
        } else if same_text(s, "subtitles") {
            Some(LyricsFormat::Subtitles)
        } else {
            None
        }
    }
}

/// The stored format of lyrics from `provider`.
/// A stored format's name reads back as the same format.
pub proof fn lemma_format_roundtrip(f: LyricsFormat)
    ensures
        (if format_name(f) == format_name(LyricsFormat::Lrclib) {
            Some(LyricsFormat::Lrclib)
        } else if format_name(f) == format_name(LyricsFormat::Richsync) {
            Some(LyricsFormat::Richsync)
        } else if format_name(f) == format_name(LyricsFormat::Subtitles) {
            Some(LyricsFormat::Subtitles)
        } else {
            None
        }) == Some(f),
{
    reveal_strlit("lrclib");
    reveal_strlit("richsync");
    reveal_strlit("subtitles");
    assert("lrclib"@[0] != "richsync"@[0]);
    assert("lrclib"@[0] != "subtitles"@[0]);
    assert("richsync"@[0] != "subtitles"@[0]);
}

pub open spec fn db_format_of(provider: Provider) -> LyricsFormat {
    match provider {
        Provider::Lrclib => LyricsFormat::Lrclib,
        Provider::MusixmatchRichsync => LyricsFormat::Richsync,
        Provider::MusixmatchSubtitles => LyricsFormat::Subtitles,
    }
}

/// The stored format of lyrics from `provider`.
pub fn provider_to_db_format(provider: Provider) -> (r: LyricsFormat)
    ensures
        r == db_format_of(provider),
{
    match provider {
        Provider::Lrclib => LyricsFormat::Lrclib,
        Provider::MusixmatchRichsync => LyricsFormat::Richsync,
        Provider::MusixmatchSubtitles => LyricsFormat::Subtitles,
    }
}

/// Which Musixmatch form lyrics came in: richsync when a line carries word
/// timings or the raw text starts with the `;;richsync=1` marker, else
/// subtitles.
pub open spec fn musixmatch_provider_of(lines: Seq<LyricLine>, raw: Option<Seq<char>>) -> Provider {
    let has_words = exists|i: int| 0 <= i < lines.len() && (#[trigger] lines[i]).words is Some;
    let marked = match raw {
        Some(r) => starts_with_seq(r, ";;richsync=1"@),
        None => false,
    };
    if has_words || marked {
        Provider::MusixmatchRichsync
    } else {
        Provider::MusixmatchSubtitles
    }
}

/// Decides which Musixmatch form lyrics came in.
pub fn determine_musixmatch_provider(lines: &[LyricLine], raw: &Option<String>) -> (r: Provider)
    ensures
        r == musixmatch_provider_of(lines@, match raw {
            Some(s) => Some(s@),
            None => None,
        }),
{
    let mut has_words = false;
    let mut i: usize = 0;
    while i < lines.len()
        invariant
            0 <= i <= lines@.len(),
            has_words == exists|j: int| 0 <= j < i && (#[trigger] lines@[j]).words is Some,
        decreases lines@.len() - i,
    {
        if lines[i].words.is_some() {
            has_words = true;
        }
        i = i + 1;
    }
    let marked = match raw {
        Some(r) => {
            let v = chars_of(r.as_str());
            let m = chars_of(";;richsync=1");
            matches_at(v.as_slice(), m.as_slice(), 0)
        },
        None => false,
    };
    if has_words || marked {
        Provider::MusixmatchRichsync
    } else {
        Provider::MusixmatchSubtitles
    }
}

/// The provider that raw cached lyrics look like they came from: JSON
/// arrays (`[{` after leading white space) are Musixmatch, richsync when
/// they hold `"ts":`, `"l":[` or `"words":[`, subtitles otherwise;
/// anything else is LRC from LRCLIB.
pub open spec fn provider_of_raw(text: Seq<char>) -> Provider {
    let t = trim_start(text);
    if starts_with_seq(t, "[{"@) {
        if contains_seq(t, "\"ts\":"@) || contains_seq(t, "\"l\":["@) || contains_seq(
            t,
            "\"words\":["@,
        ) {
            Provider::MusixmatchRichsync
        } else {
            Provider::MusixmatchSubtitles
        }
    } else {
        Provider::Lrclib
    }
}

/// Guesses the provider of raw cached lyrics; none when there is no raw text.
pub fn detect_provider_from_raw(raw: &Option<String>) -> (r: Option<Provider>)
    ensures
        r == (match raw {
            Some(s) => Some(provider_of_raw(s@)),
            None => None,
        }),
{
    match raw {
        None => None,
        Some(text) => {
            let v = chars_of(text.as_str());
            let lo = skip_leading_ws(v.as_slice());
            let t = copy_range(v.as_slice(), lo, v.len());
            let open = chars_of("[{");
            if matches_at(t.as_slice(), open.as_slice(), 0) {
                let ts = chars_of("\"ts\":");
                let l = chars_of("\"l\":[");
                let words = chars_of("\"words\":[");
                if contains_chars(t.as_slice(), ts.as_slice()) || contains_chars(
                    t.as_slice(),
                    l.as_slice(),
                ) || contains_chars(t.as_slice(), words.as_slice()) {
                    Some(Provider::MusixmatchRichsync)
                } else {
                    Some(Provider::MusixmatchSubtitles)
                }
            } else {
                Some(Provider::Lrclib)
            }
        },
    }
}

/// The lyrics sources that can be configured by name.
#[derive(Debug, Clone, Copy, PartialEq, Eq, Structural)]
pub enum LyricsSource {
    Lrclib,
    Musixmatch,
}

/// The source that a configured provider name means: `lrclib` or
/// `musixmatch`; any other name means none.
pub fn provider_source(name: &str) -> (r: Option<LyricsSource>)
    ensures
        r == (if name@ == "lrclib"@ {
            Some(LyricsSource::Lrclib)
        } else if name@ == "musixmatch"@ {
            Some(LyricsSource::Musixmatch)
        } else {
            None
        }),
{
    if same_text(name, "lrclib") {
        Some(LyricsSource::Lrclib)
    } else if same_text(name, "musixmatch") {
        Some(LyricsSource::Musixmatch)
    } else {
        None
    }
}

/// A provider's answer: parsed lines, the raw text to cache, and the track
/// identifiers it reported.
pub type ProviderResult = Result<(Vec<LyricLine>, Option<String>, TrackMatchInfo), LyricsError>;

/// What a provider's answer means for the fetch.
#[derive(Debug)]
pub enum ProviderOutcome {
    /// Lyrics were found: use them, and stop asking other providers.
    Found(Vec<LyricLine>, Option<String>, TrackMatchInfo),
    /// No lyrics, or a network failure: ask the next provider.
    Transient,
    /// The provider failed in a way that ends the search with an error.
    Fatal(LyricsError),
}

/// Classifies a provider's answer: lines found are a success, no lines or a
/// network error let the next provider try, any other error is fatal.
pub fn classify_provider_result(result: ProviderResult) -> (r: ProviderOutcome)
    ensures
        match result {
            Ok((lines, raw, ids)) => if lines@.len() > 0 {
                r == ProviderOutcome::Found(lines, raw, ids)
            } else {
                r is Transient
            },
            Err(LyricsError::Network(_)) => r is Transient,
            Err(e) => r == ProviderOutcome::Fatal(e),
        },
{
    match result {
        Ok((lines, raw, ids)) => {
            if lines.len() > 0 {
                ProviderOutcome::Found(lines, raw, ids)
            } else {
                ProviderOutcome::Transient
            }
        },
        Err(LyricsError::Network(_)) => ProviderOutcome::Transient,
        Err(e) => ProviderOutcome::Fatal(e),
    }
}

/// Whether a Musixmatch status code means a token problem: 401
/// (unauthorized), 402 (payment), 403 (forbidden) or 429 (rate limit).
pub open spec fn token_error_code(code: i64) -> bool {
    code == 401 || code == 402 || code == 403 || code == 429
}

/// Whether a status code means a token problem.
pub fn is_token_error_code(code: i64) -> (r: bool)
    ensures
        r == token_error_code(code),
{
    code == 401 || code == 402 || code == 403 || code == 429
}

/// The non-empty trimmed fields of a comma-separated list.
pub open spec fn token_list(value: Seq<char>) -> Seq<Seq<char>> {
    trimmed_fields(value, ',').filter(|f: Seq<char>| f.len() > 0)
}

/// Round-robin rotation over user-configured Musixmatch tokens, with a
/// cached token obtained from the service as fallback.
#[derive(Debug)]
pub struct TokenManager {
    pub tokens: Vec<String>,
    pub current_index: usize,
    pub cached_dynamic_token: Option<String>,
}

/// The rotation index after `k` steps from `i` over `n` tokens.
pub open spec fn advance(n: nat, i: nat, k: nat) -> nat
    decreases k,
{
    if k == 0 {
        i
    } else {
        (advance(n, i, (k - 1) as nat) + 1) % n
    }
}

impl TokenManager {
    /// The index points at a token whenever there are tokens.
    pub open spec fn wf(&self) -> bool {
        self.tokens@.len() == 0 || self.current_index < self.tokens@.len()
    }

    /// A manager over the tokens listed, comma-separated, in `env_value`
    /// (the value of `MUSIXMATCH_USERTOKEN`, if set); empty entries are
    /// skipped.
    pub fn new(env_value: Option<&str>) -> (r: Self)
        ensures
            r.wf(),
            r.current_index == 0,
            r.cached_dynamic_token is None,
            views(r.tokens@) == (match env_value {
                Some(v) => token_list(v@),
                None => Seq::empty(),
            }),
    {
        let mut tokens: Vec<String> = Vec::new();
        if let Some(value) = env_value {
            let fields = split_trimmed(value, ',');
            let ghost fv = views(fields@);
            let mut k: usize = 0;
            while k < fields.len()
                invariant
                    0 <= k <= fields@.len(),
                    fv == views(fields@),
                    fv == trimmed_fields(value@, ','),
                    views(tokens@) == fv.take(k as int).filter(|f: Seq<char>| f.len() > 0),
                decreases fields@.len() - k,
            {
                proof {
                    assert(fv.take(k + 1) =~= fv.take(k as int).push(fv[k as int]));
                    fv.take(k as int).lemma_filter_push(fv[k as int], |f: Seq<char>| f.len() > 0);
                }
                if !fields[k].as_str().is_empty() {
                    let ghost before = views(tokens@);
                    tokens.push(fields[k].clone());
                    assert(views(tokens@) =~= before.push(fv[k as int]));
                }
                k = k + 1;
            }
            assert(fv.take(k as int) =~= fv);
        }
        TokenManager { tokens, current_index: 0, cached_dynamic_token: None }
    }

    /// The number of configured tokens.
    pub fn env_token_count(&self) -> (r: usize)
        ensures
            r == self.tokens@.len(),
    {
        self.tokens.len()
    }

    /// The next configured token, in round-robin order; none when no token
    /// is configured.
    pub fn next_env_token(&mut self) -> (r: Option<String>)
        requires
            old(self).wf(),
        ensures
            final(self).wf(),
            final(self).tokens == old(self).tokens,
            final(self).cached_dynamic_token == old(self).cached_dynamic_token,
            old(self).tokens@.len() == 0 ==> r is None && final(self).current_index == old(
                self,
            ).current_index,
            old(self).tokens@.len() > 0 ==> r == Some(old(self).tokens@[old(self).current_index as int])
                && final(self).current_index == (old(self).current_index + 1) % (old(
                self,
            ).tokens@.len() as int),
    {
        if self.tokens.len() == 0 {
            return None;
        }
        let token = self.tokens[self.current_index].clone();
        self.current_index = (self.current_index + 1) % self.tokens.len();
        Some(token)
    }

    /// The cached service token, if any.
    pub fn get_dynamic_token(&self) -> (r: Option<String>)
        ensures
            r == self.cached_dynamic_token,
    {
        match &self.cached_dynamic_token {
            Some(t) => Some(t.clone()),
            None => None,
        }
    }

    /// Caches a token obtained from the service.
    pub fn set_dynamic_token(&mut self, token: String)
        ensures
            final(self).cached_dynamic_token == Some(token),
            final(self).tokens == old(self).tokens,
            final(self).current_index == old(self).current_index,
    {
        self.cached_dynamic_token = Some(token);
    }
}

/// Round-robin law: starting from index `i` over `n` tokens, `k` calls of
/// `next_env_token` leave the index at `(i + k) % n`; the `j`-th call
/// (counting from 0) hands out the token at `(i + j) % n`, so the tokens
/// come in turn and wrap around after `n` calls.
pub proof fn lemma_round_robin(n: nat, i: nat, k: nat)
    requires
        n > 0,
        i < n,
    ensures
        advance(n, i, k) == (i + k) % n,
    decreases k,
{
    if k == 0 {
        vstd::arithmetic::div_mod::lemma_small_mod(i, n);
    } else {
        lemma_round_robin(n, i, (k - 1) as nat);
        vstd::arithmetic::div_mod::lemma_add_mod_noop((i + k - 1) as int, 1, n as int);
        if n > 1 {
            vstd::arithmetic::div_mod::lemma_small_mod(1, n);
        }
    }
}

} // verus!
