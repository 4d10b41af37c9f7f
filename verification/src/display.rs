//! The display side: which lines the full-screen view shows around the
//! active one, how a snapshot's position is advanced between updates, and
//! when the next redraw is due.

use vstd::prelude::*;
use crate::layout::{
    block_views, collect_after_blocks, collect_after_spans, collect_before_blocks,
    collect_before_spans, flat, karaoke_lines, karaoke_lines_of, wrap_text, wrapped_text,
    first_n, last_n, CurrentBlock, LineStyle, VisibleLines,
};
use crate::lines::{is_active_index, sorted_by_time};
use crate::state::{Provider, Update};
use crate::text::{same_text, views};
use crate::types::{LyricLine, TrackMetadata, WordTiming};

verus! {

/// The identity of a track for the display: artist, title and album.
pub trait AsTrackId {
    /// The artist, title and album, as plain values.
    spec fn track_id_view(&self) -> (Seq<char>, Seq<char>, Seq<char>);

    /// The artist, title and album.
    fn as_track_id(&self) -> (r: (String, String, String))
        ensures
            (r.0@, r.1@, r.2@) == self.track_id_view(),
    ;
}

impl AsTrackId for Update {
    open spec fn track_id_view(&self) -> (Seq<char>, Seq<char>, Seq<char>) {
        (self.artist@, self.title@, self.album@)
    }

    fn as_track_id(&self) -> (r: (String, String, String)) {
        (self.artist.clone(), self.title.clone(), self.album.clone())
    }
}

impl AsTrackId for TrackMetadata {
    open spec fn track_id_view(&self) -> (Seq<char>, Seq<char>, Seq<char>) {
        (self.artist@, self.title@, self.album@)
    }

    fn as_track_id(&self) -> (r: (String, String, String)) {
        (self.artist.clone(), self.title.clone(), self.album.clone())
    }
}

/// The track identity of `t`.
pub fn track_id<T: AsTrackId>(t: &T) -> (r: (String, String, String))
    ensures
        (r.0@, r.1@, r.2@) == t.track_id_view(),
{
    t.as_track_id()
}

/// Whether two track identities are the same.
fn same_track(a: &(String, String, String), b: &(String, String, String)) -> (r: bool)
    ensures
        r == ((a.0@, a.1@, a.2@) == (b.0@, b.1@, b.2@)),
{
    same_text(a.0.as_str(), b.0.as_str()) && same_text(a.1.as_str(), b.1.as_str()) && same_text(
        a.2.as_str(),
        b.2.as_str(),
    )
}

/// The index of the active line of `lines` at `position`, for sorted lines
/// the last that starts at or before it; when the lines are not sorted, some
/// line, or none.
pub fn active_line_at(lines: &Vec<LyricLine>, position: u64) -> (r: Option<usize>)
    ensures
        r matches Some(i) ==> i < lines@.len(),
        sorted_by_time(lines@) ==> is_active_index(lines@, position, r),
{
    if lines.len() == 0 || position < lines[0].time_ms {
        return None;
    }
    let mut lo: usize = 0;
    let mut hi: usize = lines.len();
    while lo + 1 < hi
        invariant
            0 <= lo < hi <= lines@.len(),
            lines@[lo as int].time_ms <= position,
            sorted_by_time(lines@) ==> forall|i: int|
                hi <= i < lines@.len() ==> (#[trigger] lines@[i]).time_ms > position,
        decreases hi - lo,
    {
        let mid = lo + (hi - lo) / 2;
        if lines[mid].time_ms <= position {
            lo = mid;
        } else {
            proof {
                if sorted_by_time(lines@) {
                    assert forall|i: int| mid <= i < lines@.len() implies (
                    #[trigger] lines@[i]).time_ms > position by {
                        assert(lines@[mid as int].time_ms <= lines@[i].time_ms);
                    }
                }
            }
            hi = mid;
        }
    }
    proof {
        if sorted_by_time(lines@) && lo + 1 < lines@.len() {
            assert(lines@[lo + 1].time_ms > position);
        }
    }
    Some(lo)
}

/// The active line of a snapshot recomputed from its position: none with
/// fewer than two lines or before the first line, else the active line.
pub fn compute_line_index(update: &Update) -> (r: Option<usize>)
    ensures
        update.lines@.len() <= 1 ==> r is None,
        r matches Some(i) ==> i < update.lines@.len(),
        update.lines@.len() > 1 && sorted_by_time(update.lines@) ==> is_active_index(
            update.lines@,
            update.position_ms,
            r,
        ),
{
    if update.lines.len() <= 1 {
        return None;
    }
    active_line_at(&update.lines, update.position_ms)
}

/// A copy of a snapshot advanced by `elapsed_ms` while playing (when known),
/// with its active line recomputed.
pub fn estimate_update(update: &Update, elapsed_ms: Option<u64>) -> (r: Update)
    ensures
        r.lines@ == update.lines@,
        r.position_ms == (match elapsed_ms {
            Some(e) if update.playing => if update.position_ms + e > u64::MAX {
                u64::MAX
            } else {
                (update.position_ms + e) as u64
            },
            _ => update.position_ms,
        }),
        r.playing == update.playing,
        r.version == update.version,
        r.err == update.err,
        r.artist == update.artist,
        r.title == update.title,
        r.album == update.album,
        r.provider == update.provider,
        r.lines@.len() <= 1 ==> r.index is None,
        r.index matches Some(i) ==> i < r.lines@.len(),
        r.lines@.len() > 1 && sorted_by_time(r.lines@) ==> is_active_index(
            r.lines@,
            r.position_ms,
            r.index,
        ),
{
    let mut estimated = update.duplicate();
    if estimated.playing {
        if let Some(e) = elapsed_ms {
            estimated.position_ms = estimated.position_ms.saturating_add(e);
        }
    }
    estimated.index = compute_line_index(&estimated);
    estimated
}

/// `best` improved with `boundary` when it is later than `position`: the
/// nearer of the two delays.
pub open spec fn improve(best: Option<u64>, boundary: u64, position: u64) -> Option<u64> {
    if boundary <= position {
        best
    } else {
        let d = (boundary - position) as u64;
        match best {
            Some(c) => Some(if c <= d {
                c
            } else {
                d
            }),
            None => Some(d),
        }
    }
}

/// The times at which the look of a word changes: its start and end, and
/// the times its graphemes after the first light up when it has more than
/// one.
pub open spec fn word_boundaries(w: WordTiming) -> Seq<u64> {
    let total = if w.grapheme_boundaries@.len() == 0 {
        0int
    } else {
        w.grapheme_boundaries@.len() - 1
    };
    seq![w.start_ms, w.end_ms] + if total > 1 {
        w.grapheme_times_ms@
    } else {
        Seq::empty()
    }
}

/// `best` improved with each boundary of `bounds`.
pub open spec fn improve_all(best: Option<u64>, bounds: Seq<u64>, position: u64) -> Option<u64>
    decreases bounds.len(),
{
    if bounds.len() == 0 {
        best
    } else {
        improve(improve_all(best, bounds.drop_last(), position), bounds.last(), position)
    }
}

/// `best` improved with the boundaries of the words `words[..k]`.
pub open spec fn improve_words(best: Option<u64>, words: Seq<WordTiming>, k: int, position: u64) -> Option<
    u64,
>
    decreases k,
{
    if k <= 0 || k > words.len() {
        best
    } else {
        improve_all(improve_words(best, words, k - 1, position), word_boundaries(words[k - 1]), position)
    }
}

/// The nearest future change among the lines from `i` on, scanning line by
/// line and stopping after a line that leaves a delay of at most 10 ms.
pub open spec fn scan_boundaries(lines: Seq<LyricLine>, i: int, position: u64, best: Option<u64>) -> Option<
    u64,
>
    decreases lines.len() - i,
{
    if i < 0 || i >= lines.len() {
        best
    } else {
        match lines[i].words {
            None => scan_boundaries(lines, i + 1, position, best),
            Some(ws) => {
                let b = improve_words(best, ws@, ws@.len() as int, position);
                if b matches Some(d) && d <= 10 {
                    b
                } else {
                    scan_boundaries(lines, i + 1, position, b)
                }
            },
        }
    }
}

/// The first line from `i` on that starts after `position`.
pub open spec fn next_line_start(lines: Seq<LyricLine>, i: int, position: u64) -> Option<u64>
    decreases lines.len() - i,
{
    if i < 0 || i >= lines.len() {
        None
    } else if lines[i].time_ms > position {
        Some((lines[i].time_ms - position) as u64)
    } else {
        next_line_start(lines, i + 1, position)
    }
}

/// When the display must be redrawn next, in milliseconds from the
/// snapshot's position: never while paused; before the first line, when it
/// starts; for word-timed lyrics, at the next change of a word's highlight
/// from the active line on; otherwise when the next line starts.
pub open spec fn next_wakeup(update: Update) -> Option<u64> {
    if !update.playing {
        None
    } else {
        match update.index {
            None => if update.lines@.len() > 0 && update.lines@[0].time_ms > update.position_ms {
                Some((update.lines@[0].time_ms - update.position_ms) as u64)
            } else {
                None
            },
            Some(idx) => if update.provider == Some(Provider::MusixmatchRichsync) {
                scan_boundaries(update.lines@, idx as int, update.position_ms, None)
            } else {
                next_line_start(update.lines@, idx as int, update.position_ms)
            },
        }
    }
}

fn improve_exec(best: Option<u64>, boundary: u64, position: u64) -> (r: Option<u64>)
    ensures
        r == improve(best, boundary, position),
{
    if boundary <= position {
        best
    } else {
        let d = boundary - position;
        match best {
            Some(c) => Some(
                if c <= d {
                    c
                } else {
                    d
                },
            ),
            None => Some(d),
        }
    }
}

fn improve_with_words(best: Option<u64>, words: &Vec<WordTiming>, position: u64) -> (r: Option<u64>)
    ensures
        r == improve_words(best, words@, words@.len() as int, position),
{
    let mut b = best;
    let mut k: usize = 0;
    while k < words.len()
        invariant
            k <= words@.len(),
            b == improve_words(best, words@, k as int, position),
        decreases words@.len() - k,
    {
        let w = &words[k];
        let ghost start_b = b;
        b = improve_exec(b, w.start_ms, position);
        b = improve_exec(b, w.end_ms, position);
        let ghost bounds = word_boundaries(*w);
        proof {
            reveal_with_fuel(improve_all, 3);
            assert(bounds.take(1).drop_last() =~= Seq::<u64>::empty());
            assert(bounds.take(2).drop_last() =~= bounds.take(1));
            assert(bounds.take(1).last() == w.start_ms);
            assert(bounds.take(2).last() == w.end_ms);
            assert(improve_all(start_b, bounds.take(1), position) == improve(
                start_b,
                w.start_ms,
                position,
            ));
            assert(improve_all(start_b, bounds.take(2), position) == b);
        }
        if w.grapheme_count() > 1 {
            let mut g: usize = 0;
            while g < w.grapheme_times_ms.len()
                invariant
                    g <= w.grapheme_times_ms@.len(),
                    bounds == word_boundaries(*w),
                    w.grapheme_boundaries@.len() > 2,
                    bounds.len() == 2 + w.grapheme_times_ms@.len(),
                    b == improve_all(start_b, bounds.take(2 + g), position),
                decreases w.grapheme_times_ms@.len() - g,
            {
                proof {
                    assert(bounds.take(3 + g).drop_last() =~= bounds.take(2 + g));
                    assert(bounds[2 + g] == w.grapheme_times_ms@[g as int]);
                }
                b = improve_exec(b, w.grapheme_times_ms[g], position);
                g = g + 1;
            }
            assert(bounds.take(2 + g) =~= bounds);
        } else {
            assert(bounds.take(2) =~= bounds);
        }
        k = k + 1;
    }
    b
}

/// When the display must be redrawn next.
pub fn next_wakeup_delay(update: &Update) -> (r: Option<u64>)
    ensures
        r == next_wakeup(*update),
{
    if !update.playing {
        return None;
    }
    let lines = &update.lines;
    match update.index {
        None => {
            if lines.len() > 0 && lines[0].time_ms > update.position_ms {
                Some(lines[0].time_ms - update.position_ms)
            } else {
                None
            }
        },
        Some(idx) => {
            let position = update.position_ms;
            let rich = match update.provider {
                Some(Provider::MusixmatchRichsync) => true,
                _ => false,
            };
            if rich {
                let mut best: Option<u64> = None;
                let mut i = idx;
                while i < lines.len()
                    invariant
                        idx <= i,
                        lines@ == update.lines@,
                        position == update.position_ms,
                        update.playing,
                        update.index == Some(idx),
                        update.provider == Some(Provider::MusixmatchRichsync),
                        scan_boundaries(lines@, idx as int, position, None) == scan_boundaries(
                            lines@,
                            i as int,
                            position,
                            best,
                        ),
                    decreases lines@.len() - i,
                {
                    let ghost old_best = best;
                    let line = &lines[i];
                    assert(*line == lines@[i as int]);
                    match &line.words {
                        None => {},
                        Some(ws) => {
                            best = improve_with_words(best, ws, position);
                            if let Some(d) = best {
                                if d <= 10 {
                                    assert(scan_boundaries(lines@, i as int, position, old_best)
                                        == best);
                                    return best;
                                }
                            }
                        },
                    }
                    i = i + 1;
                }
                best
            } else {
                let mut i = idx;
                while i < lines.len()
                    invariant
                        idx <= i,
                        lines@ == update.lines@,
                        position == update.position_ms,
                        update.playing,
                        update.index == Some(idx),
                        update.provider != Some(Provider::MusixmatchRichsync),
                        next_line_start(lines@, idx as int, position) == next_line_start(
                            lines@,
                            i as int,
                            position,
                        ),
                    decreases lines@.len() - i,
                {
                    let t = lines[i].time_ms;
                    assert(t == lines@[i as int].time_ms);
                    if t > position {
                        assert(next_line_start(lines@, i as int, position) == Some(
                            (t - position) as u64,
                        ));
                        return Some(t - position);
                    }
                    i = i + 1;
                }
                None
            }
        },
    }
}

/// The lyric line shown as current: the active one while playing, and while
/// paused the active one moved by the scroll offset, kept within the lines.
pub open spec fn effective_index(update: Update, n_blocks: int, scroll_offset: int) -> int {
    let base: int = match update.index {
        Some(i) => i as int,
        None => 0,
    };
    if !update.playing {
        let top = if n_blocks > 0 {
            n_blocks - 1
        } else {
            0
        };
        let moved = base + scroll_offset;
        if moved < 0 {
            0
        } else if moved > top {
            top
        } else {
            moved
        }
    } else {
        base
    }
}

/// The active block as drawn: word by word when highlighting is on for
/// word-timed lyrics and the active line has word timings, else its wrapped
/// lines, in the current style when a line is active.
pub open spec fn current_block_ok(
    c: CurrentBlock,
    update: Update,
    block: Seq<Seq<char>>,
    width: nat,
    use_karaoke: bool,
) -> bool {
    let karaoke_words: Option<Seq<WordTiming>> = match update.index {
        Some(idx) => if use_karaoke && update.provider == Some(Provider::MusixmatchRichsync)
            && idx < update.lines@.len() {
            match update.lines@[idx as int].words {
                Some(ws) => Some(ws@),
                None => None,
            }
        } else {
            None
        },
        None => None,
    };
    match karaoke_words {
        Some(ws) => c matches CurrentBlock::Karaoke(lines) && lines@.map_values(
            |l: Vec<crate::layout::WordPiece>| l@,
        ) == karaoke_lines_of(ws, width, update.position_ms),
        None => c matches CurrentBlock::Plain(ls, style) && views(ls@) == block && style == (
        if update.index is Some {
            LineStyle::Current
        } else {
            LineStyle::After
        }),
    }
}

/// What the full-screen view shows of a snapshot (see
/// `gather_visible_lines`): the active block as `current_block_ok` says, and
/// the lines around it when the block leaves room.
#[verifier::inline]
pub open spec fn visible_lines_ok(
    r: VisibleLines,
    update: Update,
    blocks: Seq<Vec<String>>,
    width: usize,
    height: usize,
    karaoke_enabled: bool,
    max_visible_lines: Option<usize>,
    scroll_offset: isize,
) -> bool {
    let eff = effective_index(update, blocks.len() as int, scroll_offset as int);
    let bv = block_views(blocks);
    let block = if eff < bv.len() {
        bv[eff]
    } else {
        Seq::empty()
    };
    let available = match max_visible_lines {
        Some(m) => if height <= m {
            height as int
        } else {
            m as int
        },
        None => height as int,
    };
    let use_karaoke = karaoke_enabled && scroll_offset == 0 && update.playing;
    &&& current_block_ok(r.current, update, block, width as nat, use_karaoke)
    &&& if block.len() >= available {
        r.before@.len() == 0 && r.after@.len() == 0
    } else {
        match max_visible_lines {
            Some(m) => {
                let ctx: int = if m >= 1 {
                    m - 1
                } else {
                    0
                };
                let nb = ctx / 2;
                let na = ctx - nb;
                let end = if eff + 1 + na < bv.len() {
                    eff + 1 + na
                } else {
                    bv.len() as int
                };
                &&& views(r.before@) == if eff > bv.len() {
                    Seq::empty()
                } else {
                    flat(
                        bv.subrange(
                            if eff >= nb {
                                eff - nb
                            } else {
                                0
                            },
                            eff,
                        ),
                    )
                }
                &&& views(r.after@) == if eff + 1 < end {
                    flat(bv.subrange(eff + 1, end))
                } else {
                    Seq::empty()
                }
            },
            None => {
                let ctx = available - block.len();
                let nb = ctx / 2;
                let na = ctx - nb;
                &&& views(r.before@) == if eff > bv.len() {
                    Seq::empty()
                } else {
                    last_n(flat(bv.take(eff)), nb as nat)
                }
                &&& views(r.after@) == first_n(
                    flat(
                        if eff < bv.len() {
                            bv.skip(eff + 1)
                        } else {
                            Seq::empty()
                        },
                    ),
                    na as nat,
                )
            },
        }
    }
}

/// The lines above the active one cannot be gathered: while playing, the
/// active index lies past the last line, the view has room left and lines
/// above are wanted (there is nothing there to take them from).
pub open spec fn context_out_of_range(
    update: Update,
    n_blocks: int,
    height: usize,
    max_visible_lines: Option<usize>,
) -> bool {
    let available: int = match max_visible_lines {
        Some(m) => if height <= m {
            height as int
        } else {
            m as int
        },
        None => height as int,
    };
    let wanted_before: int = match max_visible_lines {
        Some(m) => (if m >= 1 {
            m - 1
        } else {
            0
        }) / 2,
        None => available / 2,
    };
    &&& update.playing
    &&& update.index matches Some(i) && i > n_blocks
    &&& available > 0
    &&& wanted_before > 0
}

/// Chooses what the full-screen view shows for a snapshot, given the
/// wrapped lines of each lyric line (`blocks`), a `width` by `height`
/// screen, whether word highlighting is on, the most lyric lines to show
/// and the scroll offset (used while paused).
///
/// The active block comes first; when it leaves room, the lines around it
/// fill the rest, half above and half below: whole lyric lines when a
/// maximum is set (that many lyric lines in all), else screen lines.
pub fn gather_visible_lines(
    update: &Update,
    blocks: &Vec<Vec<String>>,
    width: usize,
    height: usize,
    karaoke_enabled: bool,
    max_visible_lines: Option<usize>,
    scroll_offset: isize,
) -> (r: VisibleLines)
    requires
        !context_out_of_range(*update, blocks@.len() as int, height, max_visible_lines),
    ensures
        visible_lines_ok(
            r,
            *update,
            blocks@,
            width,
            height,
            karaoke_enabled,
            max_visible_lines,
            scroll_offset,
        ),
{
    let n = blocks.len();
    let base: usize = match update.index {
        Some(i) => i,
        None => 0,
    };
    let eff: usize = if !update.playing {
        let top: i128 = if n > 0 {
            (n - 1) as i128
        } else {
            0
        };
        let moved: i128 = base as i128 + scroll_offset as i128;
        if moved < 0 {
            0
        } else if moved > top {
            top as usize
        } else {
            moved as usize
        }
    } else {
        base
    };
    let ghost bv = block_views(blocks@);
    let empty_block: Vec<String> = Vec::new();
    let current_block: &Vec<String> = if eff < n {
        &blocks[eff]
    } else {
        &empty_block
    };
    assert(views(current_block@) == (if eff < bv.len() {
        bv[eff as int]
    } else {
        Seq::<Seq<char>>::empty()
    }));
    let use_karaoke = karaoke_enabled && scroll_offset == 0 && update.playing;
    let current = build_current_block(update, current_block, width, use_karaoke);
    let current_height = current_block.len();
    let available = match max_visible_lines {
        Some(m) => if height <= m {
            height
        } else {
            m
        },
        None => height,
    };
    if current_height >= available {
        return VisibleLines { before: Vec::new(), current, after: Vec::new() };
    }
    match max_visible_lines {
        Some(m) => {
            let ctx = if m >= 1 {
                m - 1
            } else {
                0
            };
            let nb = ctx / 2;
            let na = ctx - nb;
            let before = collect_before_blocks(eff, blocks, nb);
            proof {
                if eff > n {
                    assert(views(before@) =~= Seq::<Seq<char>>::empty());
                }
            }
            let after = collect_after_blocks(eff, blocks, na);
            VisibleLines { before, current, after }
        },
        None => {
            let ctx = available - current_height;
            let nb = ctx / 2;
            let na = ctx - nb;
            let before = collect_before_spans(eff, blocks, nb);
            proof {
                if eff > n {
                    assert(views(before@) =~= Seq::<Seq<char>>::empty());
                }
            }
            let after = collect_after_spans(eff, blocks, na);
            VisibleLines { before, current, after }
        },
    }
}

/// Builds the active block.
fn build_current_block(update: &Update, block: &Vec<String>, width: usize, use_karaoke: bool) -> (r:
    CurrentBlock)
    ensures
        current_block_ok(r, *update, views(block@), width as nat, use_karaoke),
{
    let rich = match update.provider {
        Some(Provider::MusixmatchRichsync) => true,
        _ => false,
    };
    if let Some(idx) = update.index {
        if use_karaoke && rich && idx < update.lines.len() {
            if let Some(ws) = &update.lines[idx].words {
                return CurrentBlock::Karaoke(karaoke_lines(ws, width, update.position_ms));
            }
        }
    }
    let mut copy: Vec<String> = Vec::new();
    let mut k: usize = 0;
    while k < block.len()
        invariant
            k <= block@.len(),
            views(copy@) == views(block@).take(k as int),
        decreases block@.len() - k,
    {
        let ghost prev = copy@;
        copy.push(block[k].clone());
        proof {
            crate::layout::lemma_map_push(prev, block@[k as int], |x: String| x@);
            assert(views(block@).take(k + 1) =~= views(block@).take(k as int).push(
                block@[k as int]@,
            ));
        }
        k = k + 1;
    }
    assert(views(block@).take(k as int) =~= views(block@));
    let style = if update.index.is_some() {
        LineStyle::Current
    } else {
        LineStyle::After
    };
    CurrentBlock::Plain(copy, style)
}

} // verus!
