//! The order of a Musixmatch search. Its tokens: the configured ones in
//! turn, each at most once, then the token the service issues, renewed once
//! when it is refused. With each token, its lookups: by Spotify id, ISRC and
//! iTunes id, then by artist and title through the matcher. Both are state
//! machines: the caller performs each request they ask for and hands back
//! what came of it.

use vstd::prelude::*;
use crate::providers::{advance, ProviderResult, TokenManager};
use crate::json::int_text;
use crate::metadata::opt_view;
use crate::requests::{
    after_dynamic_attempt, after_env_attempt, after_lookup, commontrack_params, id_lookups,
    id_lookups_of, lookup_params_of, matcher_url, matcher_url_of, nothing, nothing_found,
    pair_views, with_matcher_ids, DynamicStep, FetchOutcome, MatcherStep,
};
use crate::types::{LyricLine, LyricsError, TrackMatchInfo};

verus! {

/// Where a search stands.
#[derive(Debug, Clone, Copy, PartialEq, Eq, Structural)]
pub enum SearchStage {
    /// A request with a configured token is under way.
    Configured,
    /// A request with the service-issued token is under way; `retried` once
    /// that token has been renewed after a refusal.
    Service { retried: bool },
    /// A fresh service token has been asked for.
    Renewing { retried: bool },
    /// The search has ended.
    Finished,
}

/// What the search asks for next.
#[derive(Debug)]
pub enum SearchAction {
    /// Request lyrics with this token.
    Request(String),
    /// Ask the service for a fresh token.
    FetchToken,
    /// The search ends with this answer.
    Finish(ProviderResult),
}

/// A search over the tokens of a `TokenManager`.
#[derive(Debug)]
pub struct UsertokenSearch {
    /// How many tokens are configured.
    pub configured: usize,
    /// How many requests were made with configured tokens.
    pub attempts: usize,
    pub stage: SearchStage,
}

/// What came back of what the search asked for: the outcome of a request,
/// or the fresh service token (none when asking for one failed).
pub enum SearchAnswer {
    Outcome(Result<FetchOutcome, LyricsError>),
    Token(Option<String>),
}

/// What the search asks for, as the laws speak of it: a request with a
/// token, a fresh service token, or the end, with the lyrics found (none:
/// the empty answer, see `nothing_found`).
pub enum Asked {
    Request(String),
    FetchToken,
    Finish(Option<(Vec<LyricLine>, Option<String>, TrackMatchInfo)>),
}

/// `a` is what `asked` describes.
pub open spec fn shows(a: SearchAction, asked: Asked) -> bool {
    match (a, asked) {
        (SearchAction::Request(t), Asked::Request(u)) => t == u,
        (SearchAction::FetchToken, Asked::FetchToken) => true,
        (SearchAction::Finish(x), Asked::Finish(Some(p))) => x == Ok::<
            (Vec<LyricLine>, Option<String>, TrackMatchInfo),
            LyricsError,
        >(p),
        (SearchAction::Finish(x), Asked::Finish(None)) => nothing_found(x),
        _ => false,
    }
}

/// Whether an answer is a failed attempt: a refused token or a failed
/// request.
pub open spec fn failed_attempt(ans: SearchAnswer) -> bool {
    ans matches SearchAnswer::Outcome(o) && (o is Err || o matches Ok(FetchOutcome::TokenError(_)))
}

/// The next token after the configured token of attempt `s.attempts`
/// failed (or at the start): the next configured token while some are
/// untried (the manager's rotation moves on), else the cached service
/// token, else a fresh one is asked for.
pub open spec fn move_on_spec(s: UsertokenSearch, m: TokenManager) -> (
    UsertokenSearch,
    TokenManager,
    Asked,
) {
    if s.attempts < s.configured {
        (
            UsertokenSearch { attempts: (s.attempts + 1) as usize, stage: SearchStage::Configured, ..s },
            TokenManager {
                current_index: ((m.current_index + 1) % (m.tokens@.len() as int)) as usize,
                ..m
            },
            Asked::Request(m.tokens@[m.current_index as int]),
        )
    } else {
        match m.cached_dynamic_token {
            Some(t) => (
                UsertokenSearch { stage: SearchStage::Service { retried: false }, ..s },
                m,
                Asked::Request(t),
            ),
            None => (
                UsertokenSearch { stage: SearchStage::Renewing { retried: false }, ..s },
                m,
                Asked::FetchToken,
            ),
        }
    }
}

/// How a search starts on manager `m`.
pub open spec fn start_spec(m: TokenManager) -> (UsertokenSearch, TokenManager, Asked) {
    move_on_spec(
        UsertokenSearch {
            configured: m.tokens.len(),
            attempts: 0,
            stage: SearchStage::Configured,
        },
        m,
    )
}

/// One step of a search: what an answer leads to. With a configured token:
/// lyrics found or a missing track end the search, anything else moves on.
/// With the service token: lyrics found end it; a refusal asks for a fresh
/// token the first time and ends it with nothing the second; anything else
/// ends it with nothing. A fresh token is cached and tried; none ends the
/// search with nothing.
pub open spec fn step_spec(s: UsertokenSearch, m: TokenManager, ans: SearchAnswer) -> (
    UsertokenSearch,
    TokenManager,
    Asked,
) {
    let done = UsertokenSearch { stage: SearchStage::Finished, ..s };
    match s.stage {
        SearchStage::Configured => match ans {
            SearchAnswer::Outcome(Ok(FetchOutcome::Success(l, raw, ids))) => (
                done,
                m,
                Asked::Finish(Some((l, raw, ids))),
            ),
            SearchAnswer::Outcome(Ok(FetchOutcome::TrackNotFound)) => (done, m, Asked::Finish(None)),
            SearchAnswer::Outcome(_) => move_on_spec(s, m),
            SearchAnswer::Token(_) => (done, m, Asked::Finish(None)),
        },
        SearchStage::Service { retried } => match ans {
            SearchAnswer::Outcome(Ok(FetchOutcome::Success(l, raw, ids))) => (
                done,
                m,
                Asked::Finish(Some((l, raw, ids))),
            ),
            SearchAnswer::Outcome(Ok(FetchOutcome::TokenError(_))) => if retried {
                (done, m, Asked::Finish(None))
            } else {
                (
                    UsertokenSearch { stage: SearchStage::Renewing { retried: true }, ..s },
                    m,
                    Asked::FetchToken,
                )
            },
            _ => (done, m, Asked::Finish(None)),
        },
        SearchStage::Renewing { retried } => match ans {
            SearchAnswer::Token(Some(t)) => (
                UsertokenSearch { stage: SearchStage::Service { retried }, ..s },
                TokenManager { cached_dynamic_token: Some(t), ..m },
                Asked::Request(t),
            ),
            _ => (done, m, Asked::Finish(None)),
        },
        SearchStage::Finished => (done, m, Asked::Finish(None)),
    }
}

/// What a search asks for, in turn, when it is answered `answers` in turn
/// from state `s` on manager `m`; it stops when it ends.
pub open spec fn search_run(s: UsertokenSearch, m: TokenManager, answers: Seq<SearchAnswer>) -> Seq<
    Asked,
>
    decreases answers.len(),
{
    if answers.len() == 0 || s.stage is Finished {
        Seq::empty()
    } else {
        let next = step_spec(s, m, answers[0]);
        seq![next.2] + search_run(next.0, next.1, answers.drop_first())
    }
}

/// What a whole search on manager `m` asks for when answered `answers`:
/// its first request, then what each answer leads to.
pub open spec fn search_asks(m: TokenManager, answers: Seq<SearchAnswer>) -> Seq<Asked> {
    let first = start_spec(m);
    seq![first.2] + search_run(first.0, first.1, answers)
}

impl UsertokenSearch {
    /// The search runs on `m`: it counts `m`'s configured tokens, has tried
    /// no more of them than there are, and has reached the service token only
    /// after trying them all.
    pub open spec fn runs_on(self, m: TokenManager) -> bool {
        &&& m.wf()
        &&& self.configured == m.tokens@.len()
        &&& self.attempts <= self.configured
        &&& (self.stage is Service || self.stage is Renewing) ==> self.attempts == self.configured
        &&& self.stage is Configured ==> self.attempts >= 1
    }

    /// Moves on to the next token (see `move_on_spec`).
    fn move_on(&mut self, manager: &mut TokenManager) -> (r: SearchAction)
        requires
            old(manager).wf(),
            old(self).configured == old(manager).tokens@.len(),
            old(self).attempts <= old(self).configured,
        ensures
            ({
                let next = move_on_spec(*old(self), *old(manager));
                &&& *final(self) == next.0
                &&& *final(manager) == next.1
                &&& shows(r, next.2)
            }),
            final(self).runs_on(*final(manager)),
    {
        if self.attempts < self.configured {
            let token = manager.next_env_token();
            self.attempts = self.attempts + 1;
            self.stage = SearchStage::Configured;
            match token {
                Some(t) => SearchAction::Request(t),
                None => SearchAction::FetchToken,
            }
        } else {
            match manager.get_dynamic_token() {
                Some(t) => {
                    self.stage = SearchStage::Service { retried: false };
                    SearchAction::Request(t)
                },
                None => {
                    self.stage = SearchStage::Renewing { retried: false };
                    SearchAction::FetchToken
                },
            }
        }
    }

    /// Starts a search (see `start_spec`): the first configured token is
    /// tried when there is one; else the cached service token, or a fresh
    /// one is asked for.
    pub fn start(manager: &mut TokenManager) -> (r: (Self, SearchAction))
        requires
            old(manager).wf(),
        ensures
            r.0 == start_spec(*old(manager)).0,
            *final(manager) == start_spec(*old(manager)).1,
            shows(r.1, start_spec(*old(manager)).2),
            r.0.runs_on(*final(manager)),
    {
        let mut search = UsertokenSearch {
            configured: manager.env_token_count(),
            attempts: 0,
            stage: SearchStage::Configured,
        };
        let action = search.move_on(manager);
        (search, action)
    }

    /// What the request under way came to (see `step_spec`).
    pub fn after_request(
        &mut self,
        manager: &mut TokenManager,
        outcome: Result<FetchOutcome, LyricsError>,
    ) -> (r: SearchAction)
        requires
            old(self).runs_on(*old(manager)),
            old(self).stage is Configured || old(self).stage is Service,
        ensures
            ({
                let next = step_spec(*old(self), *old(manager), SearchAnswer::Outcome(outcome));
                &&& *final(self) == next.0
                &&& *final(manager) == next.1
                &&& shows(r, next.2)
            }),
            final(self).runs_on(*final(manager)),
    {
        match self.stage {
            SearchStage::Configured => match after_env_attempt(outcome) {
                Some(result) => {
                    self.stage = SearchStage::Finished;
                    SearchAction::Finish(result)
                },
                None => self.move_on(manager),
            },
            SearchStage::Service { retried } => match after_dynamic_attempt(outcome, retried) {
                DynamicStep::Finish(result) => {
                    self.stage = SearchStage::Finished;
                    SearchAction::Finish(result)
                },
                DynamicStep::Renew => {
                    self.stage = SearchStage::Renewing { retried: true };
                    SearchAction::FetchToken
                },
            },
            _ => SearchAction::Finish(nothing()),
        }
    }

    /// What asking for a fresh service token came to (see `step_spec`): a
    /// token is cached and tried; none ends the search with nothing.
    pub fn after_token(&mut self, manager: &mut TokenManager, token: Option<String>) -> (r:
        SearchAction)
        requires
            old(self).runs_on(*old(manager)),
            old(self).stage is Renewing,
        ensures
            ({
                let next = step_spec(*old(self), *old(manager), SearchAnswer::Token(token));
                &&& *final(self) == next.0
                &&& *final(manager) == next.1
                &&& shows(r, next.2)
            }),
            final(self).runs_on(*final(manager)),
    {
        let retried = match self.stage {
            SearchStage::Renewing { retried } => retried,
            _ => true,
        };
        match token {
            Some(t) => {
                manager.set_dynamic_token(t.clone());
                self.stage = SearchStage::Service { retried };
                SearchAction::Request(t)
            },
            None => {
                self.stage = SearchStage::Finished;
                SearchAction::Finish(nothing())
            },
        }
    }
}

/// How many more things a search in state `s` can ask for, at most: the
/// configured tokens still untried, then at most a service token request, a
/// fresh token, one retry and the end.
pub open spec fn search_budget(s: UsertokenSearch) -> nat {
    match s.stage {
        SearchStage::Configured => (s.configured - s.attempts + 5) as nat,
        SearchStage::Renewing { retried } => if retried {
            2
        } else {
            4
        },
        SearchStage::Service { retried } => if retried {
            1
        } else {
            3
        },
        SearchStage::Finished => 0,
    }
}

/// A state a search can be in on manager `m`.
pub open spec fn search_state_ok(s: UsertokenSearch, m: TokenManager) -> bool {
    &&& m.wf()
    &&& s.configured == m.tokens@.len()
    &&& s.attempts <= s.configured
}

/// One step keeps the state sound, leaves the configured tokens alone, uses
/// up some of the budget, and ends the search exactly when it says so.
proof fn lemma_step_spec(s: UsertokenSearch, m: TokenManager, ans: SearchAnswer)
    requires
        search_state_ok(s, m),
        !(s.stage is Finished),
    ensures
        ({
            let next = step_spec(s, m, ans);
            &&& search_state_ok(next.0, next.1)
            &&& next.1.tokens == m.tokens
            &&& search_budget(next.0) < search_budget(s)
            &&& (next.2 is Finish <==> next.0.stage is Finished)
        }),
{
}

/// What a search asks for from state `s` on: no more than its budget;
/// nothing after the end; given answers for all of its budget, it ends; and
/// it ends with lyrics only right after a request that found them.
proof fn lemma_search_run(s: UsertokenSearch, m: TokenManager, answers: Seq<SearchAnswer>)
    requires
        search_state_ok(s, m),
    ensures
        ({
            let run = search_run(s, m, answers);
            &&& run.len() <= search_budget(s)
            &&& forall|k: int| 0 <= k < run.len() - 1 ==> !(#[trigger] run[k] is Finish)
            &&& answers.len() >= search_budget(s) && !(s.stage is Finished) ==> run.len() > 0
                && run.last() is Finish
            &&& forall|k: int|
                0 <= k < run.len() && (#[trigger] run[k] matches Asked::Finish(Some(p))) ==> (
                answers[k] matches SearchAnswer::Outcome(Ok(FetchOutcome::Success(l, raw, ids)))
                    && run[k] == Asked::Finish(Some((l, raw, ids))))
        }),
    decreases answers.len(),
{
    if answers.len() > 0 && !(s.stage is Finished) {
        let next = step_spec(s, m, answers[0]);
        lemma_step_spec(s, m, answers[0]);
        let rest = answers.drop_first();
        lemma_search_run(next.0, next.1, rest);
        let tail = search_run(next.0, next.1, rest);
        let run = search_run(s, m, answers);
        assert(run == seq![next.2] + tail);
        if next.2 is Finish {
            assert(tail.len() == 0);
        }
        assert forall|k: int| 0 <= k < run.len() - 1 implies !(#[trigger] run[k] is Finish) by {
            if k > 0 {
                assert(run[k] == tail[k - 1]);
            }
        }
        assert forall|k: int|
            0 <= k < run.len() && (#[trigger] run[k] matches Asked::Finish(Some(p))) implies (
            answers[k] matches SearchAnswer::Outcome(Ok(FetchOutcome::Success(l, raw, ids)))
                && run[k] == Asked::Finish(Some((l, raw, ids)))) by {
            if k > 0 {
                lemma_run_len(next.0, next.1, rest);
                assert(run[k] == tail[k - 1]);
                assert(rest[k - 1] == answers[k]);
            }
        }
        if answers.len() >= search_budget(s) && !(next.2 is Finish) {
            assert(run.last() == tail.last());
        }
    }
}

/// A search always ends, and ends well: it asks for at most `n + 5` things
/// with `n` configured tokens (each configured token, then at most the
/// service token, a fresh one, one retry, and the end); it asks for nothing
/// after it ends; answered `n + 4` times it has ended. It ends with lyrics
/// only right after a request that found them, and otherwise with the empty
/// answer (see `shows`): never with an error.
pub proof fn lemma_search_ends(m: TokenManager, answers: Seq<SearchAnswer>)
    requires
        m.wf(),
    ensures
        ({
            let asks = search_asks(m, answers);
            let n = m.tokens@.len();
            &&& asks.len() <= n + 5
            &&& forall|k: int| 0 <= k < asks.len() - 1 ==> !(#[trigger] asks[k] is Finish)
            &&& answers.len() >= n + 4 ==> asks.last() is Finish
            &&& forall|k: int|
                0 <= k < asks.len() && (#[trigger] asks[k] matches Asked::Finish(Some(p))) ==> k
                    >= 1 && (answers[k - 1] matches SearchAnswer::Outcome(
                    Ok(FetchOutcome::Success(l, raw, ids)),
                ) && asks[k] == Asked::Finish(Some((l, raw, ids))))
        }),
{
    let first = start_spec(m);
    assert(search_state_ok(first.0, first.1));
    assert(search_budget(first.0) + 1 <= m.tokens@.len() + 5);
    lemma_search_run(first.0, first.1, answers);
    let run = search_run(first.0, first.1, answers);
    let asks = search_asks(m, answers);
    assert(asks == seq![first.2] + run);
    assert(!(first.2 is Finish));
    assert forall|k: int| 0 <= k < asks.len() - 1 implies !(#[trigger] asks[k] is Finish) by {
        if k > 0 {
            assert(asks[k] == run[k - 1]);
        }
    }
    assert forall|k: int|
        0 <= k < asks.len() && (#[trigger] asks[k] matches Asked::Finish(Some(p))) implies k >= 1
            && (answers[k - 1] matches SearchAnswer::Outcome(Ok(FetchOutcome::Success(l, raw, ids)))
            && asks[k] == Asked::Finish(Some((l, raw, ids)))) by {
        if k > 0 {
            assert(asks[k] == run[k - 1]);
        }
    }
    if answers.len() >= m.tokens@.len() + 4 {
        assert(asks.last() == run.last());
    }
}

/// A search asks for no more than it is answered.
proof fn lemma_run_len(s: UsertokenSearch, m: TokenManager, answers: Seq<SearchAnswer>)
    ensures
        search_run(s, m, answers).len() <= answers.len(),
    decreases answers.len(),
{
    if answers.len() > 0 && !(s.stage is Finished) {
        let next = step_spec(s, m, answers[0]);
        lemma_run_len(next.0, next.1, answers.drop_first());
    }
}

/// The configured tokens come first, in rotation: from state `s` with
/// `s.attempts` tokens tried and the rotation at `(i0 + s.attempts) % n`,
/// each request while configured tokens are left uses the next one; the
/// run gets past them only when every one of them failed.
proof fn lemma_run_rotation(
    s: UsertokenSearch,
    m: TokenManager,
    answers: Seq<SearchAnswer>,
    i0: nat,
)
    requires
        search_state_ok(s, m),
        s.stage is Configured,
        m.tokens@.len() > 0,
        m.current_index == (i0 + s.attempts) % (m.tokens@.len() as int),
    ensures
        ({
            let run = search_run(s, m, answers);
            let n = m.tokens@.len() as int;
            &&& forall|k: int|
                0 <= k < run.len() && s.attempts + k < n ==> (#[trigger] run[k] is Finish || run[k]
                    == Asked::Request(m.tokens@[(i0 + s.attempts + k) % n]))
            &&& run.len() > n - s.attempts && !(run[n - s.attempts] is Finish) ==> forall|j: int|
                0 <= j <= n - s.attempts ==> failed_attempt(#[trigger] answers[j])
        }),
    decreases answers.len(),
{
    let n = m.tokens@.len() as int;
    if answers.len() > 0 {
        let next = step_spec(s, m, answers[0]);
        let rest = answers.drop_first();
        let tail = search_run(next.0, next.1, rest);
        let run = search_run(s, m, answers);
        assert(run == seq![next.2] + tail);
        lemma_step_spec(s, m, answers[0]);
        if failed_attempt(answers[0]) && s.attempts < s.configured {
            vstd::arithmetic::div_mod::lemma_add_mod_noop_right(1, i0 + s.attempts, n);
            assert(next.0.stage is Configured);
            assert(next.1.current_index == (i0 + next.0.attempts) % n);
            lemma_run_rotation(next.0, next.1, rest, i0);
            assert forall|k: int|
                0 <= k < run.len() && s.attempts + k < n implies (#[trigger] run[k] is Finish
                || run[k] == Asked::Request(m.tokens@[(i0 + s.attempts + k) % n])) by {
                if k > 0 {
                    assert(run[k] == tail[k - 1]);
                    assert(i0 + next.0.attempts + (k - 1) == i0 + s.attempts + k);
                }
            }
            lemma_run_len(next.0, next.1, rest);
            assert forall|j: int|
                run.len() > n - s.attempts && !(run[n - s.attempts] is Finish) && 0 <= j <= n
                    - s.attempts implies failed_attempt(#[trigger] answers[j]) by {
                assert(run[n - s.attempts] == tail[n - s.attempts - 1]);
                if j > 0 {
                    assert(rest[j - 1] == answers[j]);
                }
            }
        } else if s.attempts < s.configured {
            assert(next.2 is Finish);
            assert(tail.len() == 0);
        } else if !failed_attempt(answers[0]) {
            assert(next.2 is Finish);
        }
    }
}

/// The rotation law: with `n` configured tokens and the rotation at `i0`,
/// a search asks first for the tokens at `i0`, `i0 + 1`, ... (modulo `n`),
/// one per request, so none twice (`lemma_configured_tokens_distinct`); a
/// request that finds lyrics or finds the track missing ends it; it goes on
/// past the configured tokens (its `n`-th ask is for the service token)
/// only when all `n` attempts failed.
pub proof fn lemma_search_rotation(m: TokenManager, answers: Seq<SearchAnswer>)
    requires
        m.wf(),
        m.tokens@.len() > 0,
    ensures
        ({
            let asks = search_asks(m, answers);
            let n = m.tokens@.len() as int;
            let i0 = m.current_index as int;
            &&& forall|k: int|
                0 <= k < asks.len() && k < n ==> (#[trigger] asks[k] is Finish || asks[k]
                    == Asked::Request(m.tokens@[(i0 + k) % n]))
            &&& asks.len() > n && !(asks[n] is Finish) ==> forall|j: int|
                0 <= j < n ==> failed_attempt(#[trigger] answers[j])
        }),
{
    let n = m.tokens@.len() as int;
    let i0 = m.current_index as nat;
    let first = start_spec(m);
    vstd::arithmetic::div_mod::lemma_small_mod(i0, n as nat);
    vstd::arithmetic::div_mod::lemma_add_mod_noop_right(1, i0 as int, n);
    vstd::arithmetic::div_mod::lemma_small_mod(i0, n as nat);
    assert(first.1.current_index == (i0 + first.0.attempts) % n);
    lemma_run_rotation(first.0, first.1, answers, i0);
    let run = search_run(first.0, first.1, answers);
    let asks = search_asks(m, answers);
    assert(asks == seq![first.2] + run);
    assert forall|k: int|
        0 <= k < asks.len() && k < n implies (#[trigger] asks[k] is Finish || asks[k]
        == Asked::Request(m.tokens@[(i0 + k) % n])) by {
        if k > 0 {
            assert(asks[k] == run[k - 1]);
            assert(i0 + first.0.attempts + (k - 1) == i0 + k);
        }
    }
    if asks.len() > n && !(asks[n] is Finish) {
        assert(asks[n] == run[n - 1]);
    }
}

/// The service token is renewed once and retried once: when the service
/// token is refused, a fresh token is asked for; none ends the search with
/// the empty answer; a fresh token `t` is cached (see `step_spec`) and
/// tried, and that try ends the search, with lyrics only if it found them,
/// whatever is answered after it.
pub proof fn lemma_service_token_renewed_once(
    s: UsertokenSearch,
    m: TokenManager,
    refusal: String,
    fresh: Option<String>,
    retry: SearchAnswer,
    later: Seq<SearchAnswer>,
)
    requires
        s.stage == (SearchStage::Service { retried: false }),
    ensures
        ({
            let answers = seq![
                SearchAnswer::Outcome(Ok(FetchOutcome::TokenError(refusal))),
                SearchAnswer::Token(fresh),
                retry,
            ] + later;
            let run = search_run(s, m, answers);
            &&& run[0] is FetchToken
            &&& match fresh {
                None => run.len() == 2 && run[1] == Asked::Finish(None),
                Some(t) => {
                    &&& run.len() == 3
                    &&& run[1] == Asked::Request(t)
                    &&& step_spec(s, m, answers[0]).1 == m
                    &&& step_spec(
                        step_spec(s, m, answers[0]).0,
                        m,
                        answers[1],
                    ).1.cached_dynamic_token == Some(t)
                    &&& run[2] is Finish
                    &&& (run[2] matches Asked::Finish(Some(_)) ==> retry matches SearchAnswer::Outcome(
                        Ok(FetchOutcome::Success(_, _, _)),
                    ))
                },
            }
        }),
{
    let answers = seq![
        SearchAnswer::Outcome(Ok(FetchOutcome::TokenError(refusal))),
        SearchAnswer::Token(fresh),
        retry,
    ] + later;
    let a1 = answers.drop_first();
    let a2 = a1.drop_first();
    let a3 = a2.drop_first();
    assert(answers[0] == SearchAnswer::Outcome(Ok(FetchOutcome::TokenError(refusal))));
    assert(a1[0] == SearchAnswer::Token(fresh));
    assert(a2[0] == retry);
    let n1 = step_spec(s, m, answers[0]);
    let n2 = step_spec(n1.0, n1.1, a1[0]);
    let n3 = step_spec(n2.0, n2.1, a2[0]);
    assert(search_run(s, m, answers) == seq![n1.2] + search_run(n1.0, n1.1, a1));
    assert(search_run(n1.0, n1.1, a1) == seq![n2.2] + search_run(n2.0, n2.1, a2));
    if fresh is Some {
        assert(search_run(n2.0, n2.1, a2) == seq![n3.2] + search_run(n3.0, n3.1, a3));
        assert(n3.0.stage is Finished);
        assert(search_run(n3.0, n3.1, a3).len() == 0);
    } else {
        assert(search_run(n2.0, n2.1, a2).len() == 0);
    }
}

/// Where the lookups with one token stand.
#[derive(Debug)]
pub enum LookupStage {
    /// The direct lookup at this position of `direct` is under way.
    Direct(usize),
    /// The matcher request is under way.
    Matcher,
    /// The lyrics request for the matched common track is under way; lyrics
    /// found there are reported with these identifiers.
    Commontrack(TrackMatchInfo),
    /// The lookups have ended.
    Finished,
}

/// What the lookups ask for next.
#[derive(Debug)]
pub enum LookupAction {
    /// Request `macro.subtitles.get` with these parameters.
    Macro(Vec<(String, String)>),
    /// Request this `matcher.track.get` URL.
    Matcher(String),
    /// The lookups end with this outcome.
    Finish(Result<FetchOutcome, LyricsError>),
}

/// The lookups made with one token.
#[derive(Debug)]
pub struct TokenLookups {
    /// The parameters of the direct lookups, in order.
    pub direct: Vec<Vec<(String, String)>>,
    /// The matcher URL.
    pub matcher: String,
    pub token: String,
    pub duration_ms: Option<u64>,
    pub stage: LookupStage,
}

/// A copy of a parameter list.
fn copy_pairs(v: &Vec<(String, String)>) -> (r: Vec<(String, String)>)
    ensures
        r@ == v@,
{
    let mut r: Vec<(String, String)> = Vec::new();
    let mut i: usize = 0;
    while i < v.len()
        invariant
            i <= v@.len(),
            r@ == v@.take(i as int),
        decreases v@.len() - i,
    {
        let (a, b) = &v[i];
        r.push((a.clone(), b.clone()));
        i = i + 1;
        assert(r@ =~= v@.take(i as int));
    }
    assert(v@.take(i as int) =~= v@);
    r
}

/// An outcome found by common track id, reported with the matcher's
/// identifiers.
pub open spec fn reported_with(o: FetchOutcome, ids: TrackMatchInfo) -> FetchOutcome {
    match o {
        FetchOutcome::Success(l, raw, _) => FetchOutcome::Success(l, raw, ids),
        _ => o,
    }
}

/// What came back of what the lookups asked for: the outcome of a
/// `macro.subtitles.get` request, or what the matcher request came to.
pub enum LookupAnswer {
    Macro(Result<FetchOutcome, LyricsError>),
    Matcher(Result<MatcherStep, LyricsError>),
}

/// What the lookups ask for, as the laws speak of it: a
/// `macro.subtitles.get` request with these parameters, this matcher URL,
/// or the end with this outcome.
pub enum LookupAsked {
    Macro(Seq<(Seq<char>, Seq<char>)>),
    Matcher(Seq<char>),
    Finish(Result<FetchOutcome, LyricsError>),
}

/// `a` is what `asked` describes.
pub open spec fn lookup_shows(a: LookupAction, asked: LookupAsked) -> bool {
    match (a, asked) {
        (LookupAction::Macro(p), LookupAsked::Macro(v)) => pair_views(p@) == v,
        (LookupAction::Matcher(u), LookupAsked::Matcher(v)) => u@ == v,
        (LookupAction::Finish(x), LookupAsked::Finish(y)) => x == y,
        _ => false,
    }
}

/// The lookup at position `k`: the direct lookup there while there is one,
/// else the matcher.
pub open spec fn ask_from_spec(l: TokenLookups, k: int) -> (TokenLookups, LookupAsked) {
    if 0 <= k < l.direct@.len() {
        (
            TokenLookups { stage: LookupStage::Direct(k as usize), ..l },
            LookupAsked::Macro(pair_views(l.direct@[k]@)),
        )
    } else {
        (TokenLookups { stage: LookupStage::Matcher, ..l }, LookupAsked::Matcher(l.matcher@))
    }
}

/// One step of the lookups: a direct lookup that did not find the track
/// moves on to the next lookup, any other outcome of it ends the lookups
/// with it; the matcher's outcome ends them, or its common track id is
/// asked for; the common track's outcome ends them, reported with the
/// matcher's identifiers. (An answer to something not asked for ends them
/// with the track not found.)
pub open spec fn lookup_step(l: TokenLookups, ans: LookupAnswer) -> (TokenLookups, LookupAsked) {
    let done = TokenLookups { stage: LookupStage::Finished, ..l };
    let missing = LookupAsked::Finish(Ok(FetchOutcome::TrackNotFound));
    match l.stage {
        LookupStage::Direct(k) => match ans {
            LookupAnswer::Macro(Ok(FetchOutcome::TrackNotFound)) => ask_from_spec(l, k + 1),
            LookupAnswer::Macro(o) => (done, LookupAsked::Finish(o)),
            LookupAnswer::Matcher(_) => (done, missing),
        },
        LookupStage::Matcher => match ans {
            LookupAnswer::Matcher(Ok(MatcherStep::Done(o))) => (done, LookupAsked::Finish(Ok(o))),
            LookupAnswer::Matcher(Ok(MatcherStep::FetchCommontrack(id, ids))) => (
                TokenLookups { stage: LookupStage::Commontrack(ids), ..l },
                LookupAsked::Macro(
                    lookup_params_of("commontrack_id"@, int_text(id), l.token@, l.duration_ms),
                ),
            ),
            LookupAnswer::Matcher(Err(e)) => (done, LookupAsked::Finish(Err(e))),
            LookupAnswer::Macro(_) => (done, missing),
        },
        LookupStage::Commontrack(ids) => match ans {
            LookupAnswer::Macro(Ok(o)) => (done, LookupAsked::Finish(Ok(reported_with(o, ids)))),
            LookupAnswer::Macro(Err(e)) => (done, LookupAsked::Finish(Err(e))),
            LookupAnswer::Matcher(_) => (done, missing),
        },
        LookupStage::Finished => (done, missing),
    }
}

impl TokenLookups {
    /// The lookups from position `k` on: the direct lookup there while there
    /// is one, else the matcher.
    pub open spec fn asks_from(self, k: int, a: LookupAction) -> bool {
        if k < self.direct@.len() {
            (a matches LookupAction::Macro(p) && p@ == self.direct@[k]@) && self.stage
                == LookupStage::Direct(k as usize)
        } else {
            a == LookupAction::Matcher(self.matcher) && self.stage is Matcher
        }
    }

    /// The lookups keep what they were started with.
    pub open spec fn same_plan(self, other: Self) -> bool {
        &&& other.direct == self.direct
        &&& other.matcher == self.matcher
        &&& other.token == self.token
        &&& other.duration_ms == self.duration_ms
    }

    /// Asks for the lookup at position `k`.
    fn ask_from(&mut self, k: usize) -> (r: LookupAction)
        requires
            k <= old(self).direct@.len(),
        ensures
            old(self).same_plan(*final(self)),
            final(self).asks_from(k as int, r),
            *final(self) == ask_from_spec(*old(self), k as int).0,
            lookup_shows(r, ask_from_spec(*old(self), k as int).1),
    {
        if k < self.direct.len() {
            let p = copy_pairs(&self.direct[k]);
            self.stage = LookupStage::Direct(k);
            assert(p@ == self.direct@[k as int]@);
            LookupAction::Macro(p)
        } else {
            let m = self.matcher.clone();
            self.stage = LookupStage::Matcher;
            assert(m == self.matcher);
            LookupAction::Matcher(m)
        }
    }

    /// Starts the lookups with `token`: by Spotify id, ISRC and iTunes id,
    /// each only when known, then the matcher.
    pub fn start(
        token: &str,
        artist: &str,
        title: &str,
        album: &str,
        spotify_id: &Option<String>,
        isrc: &Option<String>,
        itunes_id: &Option<String>,
        duration_ms: Option<u64>,
    ) -> (r: (Self, LookupAction))
        ensures
            r.0.direct@.map_values(|p: Vec<(String, String)>| pair_views(p@)) == id_lookups_of(
                token@,
                opt_view(*spotify_id),
                opt_view(*isrc),
                opt_view(*itunes_id),
                duration_ms,
            ),
            r.0.matcher@ == matcher_url_of(artist@, title@, album@, token@, duration_ms),
            r.0.token@ == token@,
            r.0.duration_ms == duration_ms,
            r.0.asks_from(0, r.1),
            r.0 == ask_from_spec(r.0, 0).0,
            lookup_shows(r.1, ask_from_spec(r.0, 0).1),
    {
        let mut lookups = TokenLookups {
            direct: id_lookups(token, spotify_id, isrc, itunes_id, duration_ms),
            matcher: matcher_url(artist, title, album, token, duration_ms),
            token: String::from_str(token),
            duration_ms,
            stage: LookupStage::Finished,
        };
        let action = lookups.ask_from(0);
        (lookups, action)
    }

    /// What a `macro.subtitles.get` request came to. A direct lookup that
    /// did not find the track moves on to the next lookup; any other outcome
    /// of it, a failed request included, ends the lookups with it. The
    /// common track's lyrics end them, reported with the matcher's
    /// identifiers.
    pub fn after_macro(&mut self, outcome: Result<FetchOutcome, LyricsError>) -> (r: LookupAction)
        requires
            old(self).stage is Direct && old(self).stage->Direct_0 < old(self).direct@.len()
                || old(self).stage is Commontrack,
        ensures
            old(self).same_plan(*final(self)),
            match old(self).stage {
                LookupStage::Direct(k) => match outcome {
                    Ok(FetchOutcome::TrackNotFound) => final(self).asks_from(k + 1, r),
                    _ => r == LookupAction::Finish(outcome) && final(self).stage is Finished,
                },
                LookupStage::Commontrack(ids) => final(self).stage is Finished && match outcome {
                    Ok(o) => r == LookupAction::Finish(
                        Ok::<FetchOutcome, LyricsError>(reported_with(o, ids)),
                    ),
                    Err(e) => r == LookupAction::Finish(Err::<FetchOutcome, LyricsError>(e)),
                },
                _ => false,
            },
            *final(self) == lookup_step(*old(self), LookupAnswer::Macro(outcome)).0,
            lookup_shows(r, lookup_step(*old(self), LookupAnswer::Macro(outcome)).1),
    {
        let mut stage = LookupStage::Finished;
        std::mem::swap(&mut stage, &mut self.stage);
        match stage {
            LookupStage::Direct(k) => match outcome {
                Ok(o) => match after_lookup(o) {
                    Some(done) => LookupAction::Finish(Ok(done)),
                    None => {
                        assert(k < self.direct.len());
                        self.ask_from(k + 1)
                    },
                },
                Err(e) => LookupAction::Finish(Err(e)),
            },
            LookupStage::Commontrack(ids) => match outcome {
                Ok(o) => LookupAction::Finish(Ok(with_matcher_ids(o, ids))),
                Err(e) => LookupAction::Finish(Err(e)),
            },
            _ => LookupAction::Finish(Ok(FetchOutcome::TrackNotFound)),
        }
    }

    /// What the matcher request came to: an outcome ends the lookups with
    /// it; a common track id asks for its lyrics; a failed request ends the
    /// lookups with the failure.
    pub fn after_matcher(&mut self, answer: Result<MatcherStep, LyricsError>) -> (r: LookupAction)
        requires
            old(self).stage is Matcher,
        ensures
            old(self).same_plan(*final(self)),
            match answer {
                Ok(MatcherStep::Done(o)) => r == LookupAction::Finish(
                    Ok::<FetchOutcome, LyricsError>(o),
                ) && final(self).stage is Finished,
                Ok(MatcherStep::FetchCommontrack(id, ids)) => (r matches LookupAction::Macro(p)
                    && pair_views(p@) == lookup_params_of(
                    "commontrack_id"@,
                    int_text(id),
                    old(self).token@,
                    old(self).duration_ms,
                )) && final(self).stage == LookupStage::Commontrack(ids),
                Err(e) => r == LookupAction::Finish(Err::<FetchOutcome, LyricsError>(e))
                    && final(self).stage is Finished,
            },
            *final(self) == lookup_step(*old(self), LookupAnswer::Matcher(answer)).0,
            lookup_shows(r, lookup_step(*old(self), LookupAnswer::Matcher(answer)).1),
    {
        match answer {
            Ok(MatcherStep::Done(o)) => {
                self.stage = LookupStage::Finished;
                LookupAction::Finish(Ok(o))
            },
            Ok(MatcherStep::FetchCommontrack(id, ids)) => {
                let params = commontrack_params(id, self.token.as_str(), self.duration_ms);
                self.stage = LookupStage::Commontrack(ids);
                LookupAction::Macro(params)
            },
            Err(e) => {
                self.stage = LookupStage::Finished;
                LookupAction::Finish(Err(e))
            },
        }
    }
}

/// Within one search the configured tokens come in turn and none twice:
/// from rotation index `i` over `n` tokens, the `j`-th and the `k`-th
/// requests (`j < k < n`) use different tokens, since a search makes at
/// most `n` of them.
pub proof fn lemma_configured_tokens_distinct(n: nat, i: nat, j: nat, k: nat)
    requires
        i < n,
        j < k < n,
    ensures
        advance(n, i, j) != advance(n, i, k),
{
    crate::providers::lemma_round_robin(n, i, j);
    crate::providers::lemma_round_robin(n, i, k);
    let a = i + j;
    let b = i + k;
    assert(a < 2 * n && b < 2 * n);
    assert(0 < b - a < n);
    if a < n {
        vstd::arithmetic::div_mod::lemma_small_mod(a, n);
    } else {
        vstd::arithmetic::div_mod::lemma_mod_sub_multiples_vanish(a as int, n as int);
        vstd::arithmetic::div_mod::lemma_small_mod((a - n) as nat, n);
    }
    if b < n {
        vstd::arithmetic::div_mod::lemma_small_mod(b, n);
    } else {
        vstd::arithmetic::div_mod::lemma_mod_sub_multiples_vanish(b as int, n as int);
        vstd::arithmetic::div_mod::lemma_small_mod((b - n) as nat, n);
    }
}

/// An end that a direct lookup's answer caused: the lookups end with the
/// outcome of the request, which did not just find the track missing.
pub open spec fn ended_by(asked: LookupAsked, ans: LookupAnswer) -> bool {
    match ans {
        LookupAnswer::Macro(o) => asked == LookupAsked::Finish(o) && !(o matches Ok(
            FetchOutcome::TrackNotFound,
        )),
        LookupAnswer::Matcher(_) => true,
    }
}

/// What the lookups ask for, in turn, when answered `answers` in turn from
/// state `l`; they stop when they end.
pub open spec fn lookup_run(l: TokenLookups, answers: Seq<LookupAnswer>) -> Seq<LookupAsked>
    decreases answers.len(),
{
    if answers.len() == 0 || l.stage is Finished {
        Seq::empty()
    } else {
        let next = lookup_step(l, answers[0]);
        seq![next.1] + lookup_run(next.0, answers.drop_first())
    }
}

/// What lookups with plan `l` ask for when answered `answers`: the first
/// lookup, then what each answer leads to.
pub open spec fn lookup_asks(l: TokenLookups, answers: Seq<LookupAnswer>) -> Seq<LookupAsked> {
    let first = ask_from_spec(l, 0);
    seq![first.1] + lookup_run(first.0, answers)
}

/// How many more things lookups in state `l` can ask for, at most.
pub open spec fn lookup_budget(l: TokenLookups) -> nat {
    match l.stage {
        LookupStage::Direct(k) => (l.direct@.len() - k + 2) as nat,
        LookupStage::Matcher => 2,
        LookupStage::Commontrack(_) => 1,
        LookupStage::Finished => 0,
    }
}

/// A state the lookups can be in.
pub open spec fn lookup_state_ok(l: TokenLookups) -> bool {
    l.stage matches LookupStage::Direct(k) ==> k < l.direct@.len()
}

/// The lookups ask for no more than they are answered, no more than their
/// budget, nothing after the end, and, answered for all of their budget,
/// they end.
proof fn lemma_lookup_run(l: TokenLookups, answers: Seq<LookupAnswer>)
    requires
        lookup_state_ok(l),
    ensures
        ({
            let run = lookup_run(l, answers);
            &&& run.len() <= answers.len()
            &&& run.len() <= lookup_budget(l)
            &&& forall|k: int| 0 <= k < run.len() - 1 ==> !(#[trigger] run[k] is Finish)
            &&& answers.len() >= lookup_budget(l) && !(l.stage is Finished) ==> run.len() > 0
                && run.last() is Finish
        }),
    decreases answers.len(),
{
    if answers.len() > 0 && !(l.stage is Finished) {
        let next = lookup_step(l, answers[0]);
        let rest = answers.drop_first();
        assert(l.direct@.len() == l.direct.len());
        assert(lookup_state_ok(next.0));
        assert(lookup_budget(next.0) < lookup_budget(l));
        assert(next.1 is Finish <==> next.0.stage is Finished);
        lemma_lookup_run(next.0, rest);
        let tail = lookup_run(next.0, rest);
        let run = lookup_run(l, answers);
        assert(run == seq![next.1] + tail);
        assert forall|k: int| 0 <= k < run.len() - 1 implies !(#[trigger] run[k] is Finish) by {
            if k > 0 {
                assert(run[k] == tail[k - 1]);
            }
        }
        if answers.len() >= lookup_budget(l) && !(next.1 is Finish) {
            assert(run.last() == tail.last());
        }
    }
}

/// The direct lookups come in order: from the direct lookup at position
/// `k`, each answer that finds the track missing leads to the next direct
/// lookup, then to the matcher; any other outcome of a direct lookup ends
/// the lookups with it.
proof fn lemma_lookup_run_direct(l: TokenLookups, answers: Seq<LookupAnswer>, k: int)
    requires
        l.stage == LookupStage::Direct(k as usize),
        0 <= k < l.direct@.len(),
    ensures
        ({
            let run = lookup_run(l, answers);
            let d = l.direct@.len() as int;
            &&& forall|i: int|
                0 <= i < run.len() && k + 1 + i < d ==> (#[trigger] run[i] is Finish || run[i]
                    == LookupAsked::Macro(pair_views(l.direct@[k + 1 + i]@)))
            &&& run.len() > d - k - 1 && !(run[d - k - 1] is Finish) ==> run[d - k - 1]
                == LookupAsked::Matcher(l.matcher@) && forall|j: int|
                0 <= j <= d - k - 1 ==> #[trigger] answers[j] == LookupAnswer::Macro(
                    Ok(FetchOutcome::TrackNotFound),
                )
            &&& forall|i: int|
                0 <= i < run.len() && k + i < d && #[trigger] run[i] is Finish ==> ended_by(
                    run[i],
                    answers[i],
                )
        }),
    decreases answers.len(),
{
    let d = l.direct@.len() as int;
    assert(l.direct@.len() == l.direct.len());
    if answers.len() > 0 {
        let next = lookup_step(l, answers[0]);
        let rest = answers.drop_first();
        let tail = lookup_run(next.0, rest);
        let run = lookup_run(l, answers);
        assert(run == seq![next.1] + tail);
        lemma_lookup_run(next.0, rest);
        if answers[0] == LookupAnswer::Macro(Ok(FetchOutcome::TrackNotFound)) {
            if k + 1 < d {
                lemma_lookup_run_direct(next.0, rest, k + 1);
                assert forall|i: int|
                    0 <= i < run.len() && k + 1 + i < d implies (#[trigger] run[i] is Finish
                    || run[i] == LookupAsked::Macro(pair_views(l.direct@[k + 1 + i]@))) by {
                    if i > 0 {
                        assert(run[i] == tail[i - 1]);
                    }
                }
                assert forall|j: int|
                    run.len() > d - k - 1 && !(run[d - k - 1] is Finish) && 0 <= j <= d - k
                        - 1 implies #[trigger] answers[j] == LookupAnswer::Macro(
                    Ok(FetchOutcome::TrackNotFound),
                ) by {
                    assert(run[d - k - 1] == tail[d - k - 2]);
                    if j > 0 {
                        assert(rest[j - 1] == answers[j]);
                    }
                }
                if run.len() > d - k - 1 && !(run[d - k - 1] is Finish) {
                    assert(run[d - k - 1] == tail[d - k - 2]);
                }
                assert forall|i: int|
                    0 <= i < run.len() && k + i < d && #[trigger] run[i] is Finish implies ended_by(run[i], answers[i]) by {
                    if i > 0 {
                        assert(run[i] == tail[i - 1]);
                        assert(rest[i - 1] == answers[i]);
                    }
                }
            } else {
                assert(next.1 == LookupAsked::Matcher(l.matcher@));
            }
        } else {
            assert(next.1 is Finish);
            assert(tail.len() == 0);
        }
    }
}

/// The order of the lookups with one token, with `d` direct lookups
/// (Spotify id, ISRC, iTunes id, those known): the direct lookups come first,
/// in order; one that does not just find the track missing (lyrics found, a
/// refused token, a failed request) ends the lookups at once with its
/// outcome; the matcher is asked only after every direct lookup found the
/// track missing. The lookups ask for at most `d + 3` things and, answered
/// `d + 2` times, have ended.
pub proof fn lemma_lookup_order(l: TokenLookups, answers: Seq<LookupAnswer>)
    ensures
        ({
            let asks = lookup_asks(l, answers);
            let d = l.direct@.len() as int;
            &&& asks.len() <= d + 3
            &&& forall|k: int| 0 <= k < asks.len() - 1 ==> !(#[trigger] asks[k] is Finish)
            &&& answers.len() >= d + 2 ==> asks.last() is Finish
            &&& forall|k: int|
                0 <= k < asks.len() && k < d ==> (#[trigger] asks[k] is Finish || asks[k]
                    == LookupAsked::Macro(pair_views(l.direct@[k]@)))
            &&& asks.len() > d && !(asks[d] is Finish) ==> asks[d] == LookupAsked::Matcher(
                l.matcher@,
            ) && forall|j: int|
                0 <= j < d ==> #[trigger] answers[j] == LookupAnswer::Macro(
                    Ok(FetchOutcome::TrackNotFound),
                )
            &&& forall|k: int|
                1 <= k <= d && k < asks.len() && #[trigger] asks[k] is Finish ==> ended_by(asks[k], answers[k - 1])
        }),
{
    let d = l.direct@.len() as int;
    let first = ask_from_spec(l, 0);
    let run = lookup_run(first.0, answers);
    let asks = lookup_asks(l, answers);
    assert(asks == seq![first.1] + run);
    assert(lookup_state_ok(first.0));
    lemma_lookup_run(first.0, answers);
    assert forall|k: int| 0 <= k < asks.len() - 1 implies !(#[trigger] asks[k] is Finish) by {
        if k > 0 {
            assert(asks[k] == run[k - 1]);
        }
    }
    if answers.len() >= d + 2 {
        assert(asks.last() == run.last());
    }
    if d > 0 {
        lemma_lookup_run_direct(first.0, answers, 0);
        assert forall|k: int|
            0 <= k < asks.len() && k < d implies (#[trigger] asks[k] is Finish || asks[k]
            == LookupAsked::Macro(pair_views(l.direct@[k]@))) by {
            if k > 0 {
                assert(asks[k] == run[k - 1]);
            }
        }
        if asks.len() > d && !(asks[d] is Finish) {
            assert(asks[d] == run[d - 1]);
        }
        assert forall|k: int|
            1 <= k <= d && k < asks.len() && #[trigger] asks[k] is Finish implies ended_by(asks[k], answers[k - 1]) by {
            assert(asks[k] == run[k - 1]);
        }
    }
}

} // verus!
