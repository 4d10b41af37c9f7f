//! The order of a cache read: the lookups of the plan one after the other,
//! and within a lookup its rows in the order the cache lists them; the
//! first row whose duration fits and whose lyrics can be read gives the
//! answer. The read is a state machine: the caller queries the cache and
//! reads rows as it asks, and hands back what came of it.

use vstd::prelude::*;
use crate::cache::{durations_match, lookup_plan, lookup_plan_of, lookup_view, normalize, CacheLookup, duration_matches};
use crate::metadata::opt_view;
use crate::text::{lowercase, trim};

verus! {

/// The first row from position `i` on whose duration fits `query_ms`.
pub open spec fn next_fitting(query_ms: Option<u64>, rows: Seq<(i64, Option<u64>)>, i: int) -> Option<
    int,
>
    decreases rows.len() - i,
{
    if i < 0 || i >= rows.len() {
        None
    } else if durations_match(query_ms, rows[i].1) {
        Some(i)
    } else {
        next_fitting(query_ms, rows, i + 1)
    }
}

/// Where a cache read stands.
#[derive(Debug, Clone, Copy, PartialEq, Eq, Structural)]
pub enum ReadStage {
    /// The rows of the current lookup have been asked for.
    Querying,
    /// The row at this position of the current rows is being read.
    Reading(usize),
    /// The read has ended.
    Finished,
}

/// What the read asks for next.
#[derive(Debug)]
pub enum ReadAction {
    /// Ask the cache for the rows (`(id, duration)`) of this lookup.
    Query(CacheLookup),
    /// Read the row at this position of the rows last handed in.
    Read(usize),
    /// The row just read gives the answer; when an entry id is given, the
    /// track's album is to be filed under that entry.
    Found(Option<i64>),
    /// Nothing in the cache fits.
    NotFound,
}

/// What came back of what the read asked for: the rows of a lookup, or
/// whether the row asked for could be read.
pub enum ReadAnswer {
    Rows(Vec<(i64, Option<u64>)>),
    Read(bool),
}

/// After the current lookup found nothing: the next lookup of the plan, or
/// the end when there is none.
pub open spec fn moves_on_spec(c: CacheRead) -> (CacheRead, ReadAction) {
    if c.step + 1 < c.plan@.len() {
        (
            CacheRead { step: (c.step + 1) as usize, stage: ReadStage::Querying, ..c },
            ReadAction::Query(c.plan@[c.step + 1]),
        )
    } else {
        (CacheRead { stage: ReadStage::Finished, ..c }, ReadAction::NotFound)
    }
}

/// Within the current rows from position `i` on: the first whose duration
/// fits is read; when none fits, the read moves on.
pub open spec fn read_from_spec(c: CacheRead, i: int) -> (CacheRead, ReadAction) {
    match next_fitting(c.query_ms, c.rows@, i) {
        Some(j) => (
            CacheRead { stage: ReadStage::Reading(j as usize), ..c },
            ReadAction::Read(j as usize),
        ),
        None => moves_on_spec(c),
    }
}

/// One step of a read: the rows of a lookup are searched for the first
/// fitting row; a row that can be read ends the read with it (its entry
/// given for the album when it was found by artist and title); a row that
/// cannot be read leads to the next fitting row, or on. (An answer to
/// something not asked for ends the read with nothing found.)
pub open spec fn read_step(c: CacheRead, ans: ReadAnswer) -> (CacheRead, ReadAction) {
    let done = CacheRead { stage: ReadStage::Finished, ..c };
    match c.stage {
        ReadStage::Querying => match ans {
            ReadAnswer::Rows(rows) => read_from_spec(CacheRead { rows, ..c }, 0),
            ReadAnswer::Read(_) => (done, ReadAction::NotFound),
        },
        ReadStage::Reading(i) => match ans {
            ReadAnswer::Read(true) => {
                let id = c.rows@[i as int].0;
                (
                    done,
                    ReadAction::Found(
                        if c.plan@[c.step as int] is ArtistTitle && c.album_known && id > 0 {
                            Some(id)
                        } else {
                            None
                        },
                    ),
                )
            },
            ReadAnswer::Read(false) => read_from_spec(c, i + 1),
            ReadAnswer::Rows(_) => (done, ReadAction::NotFound),
        },
        ReadStage::Finished => (done, ReadAction::NotFound),
    }
}

/// What a read asks for, in turn, when answered `answers` in turn from
/// state `c`; it stops when it ends.
pub open spec fn read_run(c: CacheRead, answers: Seq<ReadAnswer>) -> Seq<ReadAction>
    decreases answers.len(),
{
    if answers.len() == 0 || c.stage is Finished {
        Seq::empty()
    } else {
        let next = read_step(c, answers[0]);
        seq![next.1] + read_run(next.0, answers.drop_first())
    }
}

/// How many of the first `t` asks are lookups.
pub open spec fn query_count(asks: Seq<ReadAction>, t: int) -> nat
    decreases t,
{
    if t <= 0 || asks.len() == 0 {
        0
    } else {
        (if asks[0] is Query {
            1nat
        } else {
            0nat
        }) + query_count(asks.drop_first(), t - 1)
    }
}

/// Whether an ask ends the read.
pub open spec fn ends_read(a: ReadAction) -> bool {
    a is Found || a is NotFound
}

/// The first fitting row from `i` on lies within the rows.
proof fn lemma_next_fitting_range(query_ms: Option<u64>, rows: Seq<(i64, Option<u64>)>, i: int)
    requires
        0 <= i,
    ensures
        next_fitting(query_ms, rows, i) matches Some(j) ==> i <= j < rows.len(),
    decreases rows.len() - i,
{
    if i < rows.len() && !durations_match(query_ms, rows[i].1) {
        lemma_next_fitting_range(query_ms, rows, i + 1);
    }
}

/// One step keeps the read in a sound state: a lookup asked for is the
/// next of the plan; a row read belongs to the same lookup; the read ends
/// exactly when it says so, with lyrics only after a row was read.
proof fn lemma_read_step(c: CacheRead, ans: ReadAnswer)
    requires
        c.step < c.plan@.len(),
        c.stage is Querying || (c.stage matches ReadStage::Reading(i) && i < c.rows@.len()),
    ensures
        ({
            let next = read_step(c, ans);
            &&& next.0.plan == c.plan
            &&& ends_read(next.1) <==> next.0.stage is Finished
            &&& !ends_read(next.1) ==> next.0.step < next.0.plan@.len() && (next.0.stage is Querying
                || (next.0.stage matches ReadStage::Reading(i) && i < next.0.rows@.len()))
            &&& next.1 is Query ==> next.0.step == c.step + 1 && next.1 == ReadAction::Query(
                c.plan@[c.step + 1],
            ) && next.0.stage is Querying
            &&& next.1 is Read ==> next.0.step == c.step && next.0.stage is Reading
            &&& next.1 is Found ==> ans == ReadAnswer::Read(true) && c.stage is Reading
        }),
{
    assert(c.plan@.len() == c.plan.len());
    assert(c.rows@.len() == c.rows.len());
    match c.stage {
        ReadStage::Querying => match ans {
            ReadAnswer::Rows(rows) => {
                assert(rows@.len() == rows.len());
                lemma_next_fitting_range(c.query_ms, rows@, 0);
            },
            _ => {},
        },
        ReadStage::Reading(i) => {
            lemma_next_fitting_range(c.query_ms, c.rows@, i + 1);
        },
        _ => {},
    }
}

/// The order of a read from state `c` at lookup `k`: the lookups it asks
/// for are the following ones of the plan, in order, each once; it ends
/// with lyrics only right after a row was read successfully; nothing comes
/// after its end.
proof fn lemma_read_run(c: CacheRead, answers: Seq<ReadAnswer>)
    requires
        c.step < c.plan@.len(),
        c.stage is Querying || (c.stage matches ReadStage::Reading(i) && i < c.rows@.len()),
    ensures
        ({
            let run = read_run(c, answers);
            &&& run.len() <= answers.len()
            &&& forall|t: int|
                0 <= t < run.len() && #[trigger] run[t] is Query ==> c.step + 1 + query_count(
                    run,
                    t,
                ) < c.plan@.len() && run[t] == ReadAction::Query(
                    c.plan@[c.step + 1 + query_count(run, t)],
                )
            &&& forall|t: int|
                0 <= t < run.len() && #[trigger] run[t] is Found ==> answers[t]
                    == ReadAnswer::Read(true) && (t > 0 ==> run[t - 1] is Read) && (t == 0
                    ==> c.stage is Reading)
            &&& forall|t: int| 0 <= t < run.len() - 1 ==> !ends_read(#[trigger] run[t])
        }),
    decreases answers.len(),
{
    if answers.len() > 0 {
        let next = read_step(c, answers[0]);
        let rest = answers.drop_first();
        let run = read_run(c, answers);
        let tail = read_run(next.0, rest);
        assert(run == seq![next.1] + tail);
        assert(run.drop_first() =~= tail);
        lemma_read_step(c, answers[0]);
        if !ends_read(next.1) {
            lemma_read_run(next.0, rest);
            assert forall|t: int|
                0 <= t < run.len() && #[trigger] run[t] is Query implies c.step + 1 + query_count(
                run,
                t,
            ) < c.plan@.len() && run[t] == ReadAction::Query(
                c.plan@[c.step + 1 + query_count(run, t)],
            ) by {
                if t > 0 {
                    assert(run[t] == tail[t - 1]);
                    assert(query_count(run, t) == (if next.1 is Query {
                        1nat
                    } else {
                        0nat
                    }) + query_count(tail, t - 1));
                }
            }
            assert forall|t: int|
                0 <= t < run.len() && #[trigger] run[t] is Found implies answers[t]
                == ReadAnswer::Read(true) && (t > 0 ==> run[t - 1] is Read) && (t == 0
                ==> c.stage is Reading) by {
                if t > 0 {
                    assert(run[t] == tail[t - 1]);
                    assert(rest[t - 1] == answers[t]);
                    if t > 1 {
                        assert(run[t - 1] == tail[t - 2]);
                    } else {
                        assert(next.0.stage is Reading);
                    }
                }
            }
            assert forall|t: int| 0 <= t < run.len() - 1 implies !ends_read(#[trigger] run[t]) by {
                if t > 0 {
                    assert(run[t] == tail[t - 1]);
                }
            }
        } else {
            assert(next.0.stage is Finished);
            assert(tail.len() == 0);
        }
    }
}

/// First key wins: a read started on a plan asks for its lookups in the
/// plan's order, each at most once (each step, see `read_step`, moves on to
/// the next lookup only when the current one's rows hold no further fitting
/// row); it ends with lyrics only right after a row was read successfully;
/// nothing comes after its end.
pub proof fn lemma_read_order(c: CacheRead, answers: Seq<ReadAnswer>)
    requires
        c.step == 0,
        c.stage is Querying,
        c.plan@.len() > 0,
    ensures
        ({
            let asks = seq![ReadAction::Query(c.plan@[0])] + read_run(c, answers);
            &&& forall|t: int|
                0 <= t < asks.len() && #[trigger] asks[t] is Query ==> query_count(asks, t)
                    < c.plan@.len() && asks[t] == ReadAction::Query(c.plan@[query_count(asks, t) as int])
            &&& forall|t: int|
                0 <= t < asks.len() && #[trigger] asks[t] is Found ==> t >= 1 && answers[t - 1]
                    == ReadAnswer::Read(true) && asks[t - 1] is Read
            &&& forall|t: int| 0 <= t < asks.len() - 1 ==> !ends_read(#[trigger] asks[t])
        }),
{
    let run = read_run(c, answers);
    let asks = seq![ReadAction::Query(c.plan@[0])] + run;
    lemma_read_run(c, answers);
    assert(asks.drop_first() =~= run);
    assert forall|t: int|
        0 <= t < asks.len() && #[trigger] asks[t] is Query implies query_count(asks, t)
        < c.plan@.len() && asks[t] == ReadAction::Query(c.plan@[query_count(asks, t) as int]) by {
        if t > 0 {
            assert(asks[t] == run[t - 1]);
            assert(query_count(asks, t) == 1 + query_count(run, t - 1));
        }
    }
    assert forall|t: int|
        0 <= t < asks.len() && #[trigger] asks[t] is Found implies t >= 1 && answers[t - 1]
        == ReadAnswer::Read(true) && asks[t - 1] is Read by {
        if t > 0 {
            assert(asks[t] == run[t - 1]);
            if t > 1 {
                assert(asks[t - 1] == run[t - 2]);
            }
        }
    }
    assert forall|t: int| 0 <= t < asks.len() - 1 implies !ends_read(#[trigger] asks[t]) by {
        if t > 0 {
            assert(asks[t] == run[t - 1]);
        }
    }
}

/// A read of the cache for one track.
#[derive(Debug)]
pub struct CacheRead {
    /// The lookups, in order.
    pub plan: Vec<CacheLookup>,
    /// The track's duration.
    pub query_ms: Option<u64>,
    /// Whether the track's normalized album is not empty.
    pub album_known: bool,
    /// The position of the current lookup in `plan`.
    pub step: usize,
    /// The rows of the current lookup.
    pub rows: Vec<(i64, Option<u64>)>,
    pub stage: ReadStage,
}

/// A copy of a lookup.
fn copy_lookup(l: &CacheLookup) -> (r: CacheLookup)
    ensures
        r == *l,
{
    match l {
        CacheLookup::Isrc(s) => CacheLookup::Isrc(s.clone()),
        CacheLookup::Alias(a, t, al) => CacheLookup::Alias(a.clone(), t.clone(), al.clone()),
        CacheLookup::Spotify(s) => CacheLookup::Spotify(s.clone()),
        CacheLookup::Itunes(s) => CacheLookup::Itunes(s.clone()),
        CacheLookup::ArtistTitle(a, t) => CacheLookup::ArtistTitle(a.clone(), t.clone()),
    }
}

impl CacheRead {
    /// The read keeps its plan, duration and album.
    pub open spec fn same_read(self, other: Self) -> bool {
        &&& other.plan == self.plan
        &&& other.query_ms == self.query_ms
        &&& other.album_known == self.album_known
    }

    /// After the current lookup found nothing: the next lookup of the plan,
    /// or the end when there is none.
    pub open spec fn moves_on(self, next: Self, r: ReadAction) -> bool {
        if self.step + 1 < self.plan@.len() {
            &&& next.step == self.step + 1
            &&& r == ReadAction::Query(self.plan@[self.step + 1])
            &&& next.stage is Querying
        } else {
            &&& r is NotFound
            &&& next.stage is Finished
        }
    }

    /// Within the current rows from position `i` on: the first whose
    /// duration fits is read; when none fits, the read moves on.
    pub open spec fn reads_from(self, next: Self, i: int, r: ReadAction) -> bool {
        match next_fitting(self.query_ms, self.rows@, i) {
            Some(j) => r == ReadAction::Read(j as usize) && next.stage == ReadStage::Reading(
                j as usize,
            ) && next.step == self.step && next.rows == self.rows,
            None => self.moves_on(next, r),
        }
    }

    /// Goes on with the current rows from position `i`.
    fn read_from(&mut self, i: usize) -> (r: ReadAction)
        requires
            old(self).step < old(self).plan@.len(),
        ensures
            old(self).same_read(*final(self)),
            final(self).rows == old(self).rows,
            old(self).reads_from(*final(self), i as int, r),
            (*final(self), r) == read_from_spec(*old(self), i as int),
            final(self).step < final(self).plan@.len(),
            final(self).stage matches ReadStage::Reading(j) ==> j < final(self).rows@.len(),
    {
        let mut j: usize = i;
        while j < self.rows.len()
            invariant
                i <= j,
                *self == *old(self),
                self.step < self.plan@.len(),
                next_fitting(self.query_ms, self.rows@, i as int) == next_fitting(
                    self.query_ms,
                    self.rows@,
                    j as int,
                ),
            decreases self.rows@.len() - j,
        {
            if duration_matches(self.query_ms, self.rows[j].1) {
                self.stage = ReadStage::Reading(j);
                return ReadAction::Read(j);
            }
            j = j + 1;
        }
        assert(self.step < self.plan.len());
        if self.step + 1 < self.plan.len() {
            self.step = self.step + 1;
            self.stage = ReadStage::Querying;
            ReadAction::Query(copy_lookup(&self.plan[self.step]))
        } else {
            self.stage = ReadStage::Finished;
            ReadAction::NotFound
        }
    }

    /// Starts a read for a track: its plan (see `lookup_plan`), its first
    /// lookup asked for.
    pub fn start(
        artist: &str,
        title: &str,
        album: &str,
        isrc: &Option<String>,
        spotify_id: &Option<String>,
        itunes_id: &Option<String>,
        query_ms: Option<u64>,
    ) -> (r: (Self, ReadAction))
        ensures
            r.0.plan@.map_values(|l: CacheLookup| lookup_view(l)) == lookup_plan_of(
                artist@,
                title@,
                album@,
                opt_view(*isrc),
                opt_view(*spotify_id),
                opt_view(*itunes_id),
            ),
            r.0.query_ms == query_ms,
            r.0.album_known == (lowercase(trim(album@)).len() > 0),
            r.0.step == 0,
            r.0.plan@.len() > 0,
            r.1 == ReadAction::Query(r.0.plan@[0]),
            r.0.stage is Querying,
    {
        let plan = lookup_plan(artist, title, album, isrc, spotify_id, itunes_id);
        assert(plan@.map_values(|l: CacheLookup| lookup_view(l)).len() > 0);
        let first = copy_lookup(&plan[0]);
        let read = CacheRead {
            plan,
            query_ms,
            album_known: !normalize(album).as_str().is_empty(),
            step: 0,
            rows: Vec::new(),
            stage: ReadStage::Querying,
        };
        (read, ReadAction::Query(first))
    }

    /// The rows the current lookup gave: the first whose duration fits is
    /// read; when none fits, the read moves on to the next lookup.
    pub fn after_rows(&mut self, rows: Vec<(i64, Option<u64>)>) -> (r: ReadAction)
        requires
            old(self).stage is Querying,
            old(self).step < old(self).plan@.len(),
        ensures
            old(self).same_read(*final(self)),
            final(self).rows == rows,
            (CacheRead { rows, ..*old(self) }).reads_from(*final(self), 0, r),
            (*final(self), r) == read_step(*old(self), ReadAnswer::Rows(rows)),
            final(self).step < final(self).plan@.len(),
            final(self).stage matches ReadStage::Reading(j) ==> j < final(self).rows@.len(),
    {
        self.rows = rows;
        self.read_from(0)
    }

    /// Whether the row being read gave lyrics: if so the read ends with it,
    /// the album to be filed under its entry when it was found by artist and
    /// title on another album; if not the next fitting row is read, or the
    /// read moves on.
    pub fn after_read(&mut self, found: bool) -> (r: ReadAction)
        requires
            old(self).stage matches ReadStage::Reading(j) && j < old(self).rows@.len(),
            old(self).step < old(self).plan@.len(),
        ensures
            old(self).same_read(*final(self)),
            final(self).step < final(self).plan@.len(),
            final(self).stage matches ReadStage::Reading(j) ==> j < final(self).rows@.len(),
            (*final(self), r) == read_step(*old(self), ReadAnswer::Read(found)),
            ({
                let i = old(self).stage->Reading_0 as int;
                let id = old(self).rows@[i].0;
                if found {
                    &&& r == ReadAction::Found(
                        if old(self).plan@[old(self).step as int] is ArtistTitle
                            && old(self).album_known && id > 0 {
                            Some(id)
                        } else {
                            None
                        },
                    )
                    &&& final(self).stage is Finished
                } else {
                    old(self).reads_from(*final(self), i + 1, r)
                }
            }),
    {
        let i = match self.stage {
            ReadStage::Reading(j) => j,
            _ => 0,
        };
        if found {
            self.stage = ReadStage::Finished;
            let id = self.rows[i].0;
            let by_artist_title = match &self.plan[self.step] {
                CacheLookup::ArtistTitle(_, _) => true,
                _ => false,
            };
            if by_artist_title && self.album_known && id > 0 {
                ReadAction::Found(Some(id))
            } else {
                ReadAction::Found(None)
            }
        } else {
            assert(i < self.rows.len());
            self.read_from(i + 1)
        }
    }
}

} // verus!
