//! The state machines of the two front ends. The full-screen view keeps the
//! last snapshot and its wrapped lines; the pipe prints each new active line
//! once. Timers and terminal input stay with the caller, which hands in the
//! time elapsed and the keys pressed.

use vstd::prelude::*;
use crate::display::{
    active_line_at, effective_index, estimate_update, gather_visible_lines, track_id,
    visible_lines_ok, AsTrackId,
};
use crate::layout::{wrap_text, wrapped_text, VisibleLines};
use crate::lines::{is_active_index, sorted_by_time};
use crate::state::Update;
use crate::text::{same_text, views};
use crate::types::LyricLine;

verus! {

/// What the full-screen view shows.
#[derive(Debug, Clone)]
pub enum ScreenContent {
    /// Nothing: no snapshot, no lyrics, or no valid active line.
    Nothing,
    /// An error, wrapped to the width, in the current style.
    Error(Vec<String>),
    /// The lyrics around the active line.
    Lyrics(VisibleLines),
}

/// The wrapped lines of each lyric line, for a given width.
pub open spec fn cache_fits(cache: Option<(usize, Vec<Vec<String>>)>, lines: Seq<LyricLine>, width: usize) -> bool {
    cache matches Some((w, blocks)) && w == width && blocks@.len() == lines.len()
}

/// The cache after making it fit `lines` and `width`: unchanged when it
/// already fitted, else rebuilt with each line wrapped to the width.
pub open spec fn rewrapped(
    new: Option<(usize, Vec<Vec<String>>)>,
    old: Option<(usize, Vec<Vec<String>>)>,
    lines: Seq<LyricLine>,
    width: usize,
) -> bool {
    &&& cache_fits(new, lines, width)
    &&& cache_fits(old, lines, width) ==> new == old
    &&& !cache_fits(old, lines, width) ==> (new matches Some((_, blocks)) && forall|i: int|
        0 <= i < blocks@.len() ==> views(#[trigger] blocks@[i]@) == wrapped_text(
            lines[i].text@,
            width as nat,
        ))
}

/// Keeps the wrapped lines of `lines` for `width`: they are rebuilt unless
/// the cache holds as many blocks as there are lines, for the same width.
pub fn ensure_wrapped_cache(
    cache: &mut Option<(usize, Vec<Vec<String>>)>,
    lines: &Vec<LyricLine>,
    width: usize,
)
    ensures
        rewrapped(*final(cache), *old(cache), lines@, width),
{
    let fits = match cache {
        Some((w, blocks)) => *w == width && blocks.len() == lines.len(),
        None => false,
    };
    if fits {
        return;
    }
    let mut blocks: Vec<Vec<String>> = Vec::new();
    let mut i: usize = 0;
    while i < lines.len()
        invariant
            i <= lines@.len(),
            blocks@.len() == i,
            forall|k: int|
                0 <= k < i ==> views(#[trigger] blocks@[k]@) == wrapped_text(
                    lines@[k].text@,
                    width as nat,
                ),
        decreases lines@.len() - i,
    {
        blocks.push(wrap_text(lines[i].text.as_str(), width));
        i = i + 1;
    }
    *cache = Some((width, blocks));
}

/// Chooses what the full-screen view shows for the last snapshot: nothing
/// without one; its error, wrapped, when it has one; nothing without lyrics
/// or with an active line out of range; else the lyrics around the active
/// line (`gather_visible_lines`), from the wrapped lines kept in `cache`
/// (made to fit first, see `ensure_wrapped_cache`).
pub fn visible_content(
    last: &Option<Update>,
    cache: &mut Option<(usize, Vec<Vec<String>>)>,
    width: usize,
    height: usize,
    karaoke_enabled: bool,
    max_visible_lines: Option<usize>,
    scroll_offset: isize,
) -> (r: ScreenContent)
    ensures
        match last {
            None => r is Nothing && *final(cache) == *old(cache),
            Some(u) => match u.err {
                Some(e) => r matches ScreenContent::Error(ls) && views(ls@) == wrapped_text(
                    e@,
                    width as nat,
                ) && *final(cache) == *old(cache),
                None => if u.lines@.len() == 0 || (u.index matches Some(i) && i >= u.lines@.len()) {
                    r is Nothing && *final(cache) == *old(cache)
                } else {
                    &&& rewrapped(*final(cache), *old(cache), u.lines@, width)
                    &&& r matches ScreenContent::Lyrics(v) && *final(cache) matches Some((_, blocks))
                        && visible_lines_ok(
                        v,
                        *u,
                        blocks@,
                        width,
                        height,
                        karaoke_enabled,
                        max_visible_lines,
                        scroll_offset,
                    )
                },
            },
        },
{
    let u = match last {
        Some(u) => u,
        None => {
            return ScreenContent::Nothing;
        },
    };
    if let Some(e) = &u.err {
        return ScreenContent::Error(wrap_text(e.as_str(), width));
    }
    if u.lines.len() == 0 {
        return ScreenContent::Nothing;
    }
    if let Some(i) = u.index {
        if i >= u.lines.len() {
            return ScreenContent::Nothing;
        }
    }
    ensure_wrapped_cache(cache, &u.lines, width);
    match cache {
        Some((_, blocks)) => ScreenContent::Lyrics(
            gather_visible_lines(u, blocks, width, height, karaoke_enabled, max_visible_lines, scroll_offset),
        ),
        None => ScreenContent::Nothing,
    }
}

/// The full-screen view's state.
#[derive(Debug)]
pub struct ModernUIState {
    pub last_update: Option<Update>,
    pub wrapped_cache: Option<(usize, Vec<Vec<String>>)>,
    pub last_track_id: Option<(String, String, String)>,
    pub should_exit: bool,
    pub karaoke_enabled: bool,
    /// Lines scrolled away from the active one while paused.
    pub scroll_offset: isize,
}

/// The identity of a track as plain values.
pub open spec fn id_view(id: (String, String, String)) -> (Seq<char>, Seq<char>, Seq<char>) {
    (id.0@, id.1@, id.2@)
}

/// Whether `last` names the track `id`.
fn is_same_track(last: &Option<(String, String, String)>, id: &(String, String, String)) -> (r: bool)
    ensures
        r == (*last matches Some(l) && id_view(l) == id_view(*id)),
{
    match last {
        Some(l) => same_text(l.0.as_str(), id.0.as_str()) && same_text(l.1.as_str(), id.1.as_str())
            && same_text(l.2.as_str(), id.2.as_str()),
        None => false,
    }
}

/// A key pressed in the full-screen view.
#[derive(Debug, Clone, Copy, PartialEq, Eq)]
pub enum UiKey {
    /// A character, and whether Control was held.
    Char(char, bool),
    Esc,
    Up,
    Down,
    Other,
}

/// `i` kept within the indices of `n` lines (0 when there are none).
pub open spec fn clamp_line(i: int, n: int) -> int {
    if i < 0 || n <= 0 {
        0
    } else if i > n - 1 {
        n - 1
    } else {
        i
    }
}

/// The scroll offset after moving the shown line of `u` by `delta` lines
/// from where `offset` puts it, within the lyrics.
pub open spec fn scrolled_offset(u: Update, offset: int, delta: int) -> int {
    let n = u.lines@.len() as int;
    let base: int = match u.index {
        Some(i) => i as int,
        None => 0,
    };
    clamp_line(clamp_line(base + offset, n) + delta, n) - base
}

/// How far a key scrolls a paused view: up, or `k` while paused, one line
/// back; down or `j` one line ahead.
pub open spec fn scroll_delta(key: UiKey, paused: bool) -> Option<int> {
    match key {
        UiKey::Up => Some(-1),
        UiKey::Down => Some(1),
        UiKey::Char(c, _) => if c == 'j' {
            Some(1)
        } else if c == 'k' && paused {
            Some(-1)
        } else {
            None
        },
        _ => None,
    }
}

/// Whether the view shows a paused snapshot.
pub open spec fn is_paused(last: Option<Update>) -> bool {
    last matches Some(u) && !u.playing
}

impl ModernUIState {
    /// The initial state: nothing shown, highlighting on.
    pub fn new() -> (r: Self)
        ensures
            r.last_update is None,
            r.wrapped_cache is None,
            r.last_track_id is None,
            !r.should_exit,
            r.karaoke_enabled,
            r.scroll_offset == 0,
    {
        ModernUIState {
            last_update: None,
            wrapped_cache: None,
            last_track_id: None,
            should_exit: false,
            karaoke_enabled: true,
            scroll_offset: 0,
        }
    }

    /// Takes in a snapshot (none when the updates have ended, which ends the
    /// view). A snapshot with lyrics replaces the shown one and drops the
    /// wrapped lines; one without lyrics clears the view, except that an
    /// error for the track already shown keeps it. Answers whether the
    /// snapshot was taken over (its time is then the new reference for
    /// position estimates).
    pub fn update_state(&mut self, update: Option<Update>) -> (r: bool)
        ensures
            match update {
                None => final(self).should_exit && !r && final(self).last_update == old(
                    self,
                ).last_update && final(self).last_track_id == old(self).last_track_id
                    && final(self).scroll_offset == old(self).scroll_offset,
                Some(u) => {
                    let id = (u.artist@, u.title@, u.album@);
                    let is_new = !(old(self).last_track_id matches Some(l) && id_view(l) == id);
                    &&& final(self).last_track_id matches Some(l) && id_view(l) == id
                    &&& final(self).should_exit == old(self).should_exit
                    &&& final(self).scroll_offset == (if u.playing || is_new {
                        0
                    } else {
                        old(self).scroll_offset
                    })
                    &&& if u.lines@.len() > 0 {
                        &&& r
                        &&& final(self).last_update matches Some(x) && x.lines@ == u.lines@
                            && x.index == u.index && x.position_ms == u.position_ms && x.playing
                            == u.playing && x.err == u.err && x.provider == u.provider
                        &&& final(self).wrapped_cache is None
                    } else if u.err is Some {
                        &&& !r
                        &&& is_new ==> final(self).last_update is None
                        &&& !is_new ==> final(self).last_update == old(self).last_update
                    } else {
                        !r && final(self).last_update is None
                    }
                },
            },
    {
        let u = match update {
            Some(u) => u,
            None => {
                self.should_exit = true;
                return false;
            },
        };
        let id = track_id(&u);
        let is_new = !is_same_track(&self.last_track_id, &id);
        if u.playing || is_new {
            self.scroll_offset = 0;
        }
        if u.lines.len() == 0 && u.err.is_some() {
            if is_new {
                self.last_update = None;
            }
            self.last_track_id = Some(id);
            return false;
        }
        if u.lines.len() == 0 {
            self.last_update = None;
            self.last_track_id = Some(id);
            return false;
        }
        self.wrapped_cache = None;
        self.last_update = Some(u.duplicate());
        self.last_track_id = Some(id);
        true
    }

    /// Moves the line shown while paused by `delta` lines, within the
    /// lyrics; does nothing while playing or without lyrics.
    fn scroll(&mut self, delta: i128)
        requires
            delta == -1 || delta == 1,
        ensures
            ({
                let off = match old(self).last_update {
                    Some(u) => scrolled_offset(u, old(self).scroll_offset as int, delta as int),
                    None => 0,
                };
                final(self).scroll_offset == (if is_paused(old(self).last_update)
                    && old(self).last_update->0.lines@.len() > 0 && isize::MIN <= off
                    <= isize::MAX {
                    off as isize
                } else {
                    old(self).scroll_offset
                })
            }),
            final(self).should_exit == old(self).should_exit,
            final(self).karaoke_enabled == old(self).karaoke_enabled,
            final(self).last_update == old(self).last_update,
            final(self).last_track_id == old(self).last_track_id,
    {
        if let Some(u) = &self.last_update {
            if !u.playing && u.lines.len() > 0 {
                let n = u.lines.len() as i128;
                let base: i128 = match u.index {
                    Some(i) => i as i128,
                    None => 0,
                };
                let cur0 = base + self.scroll_offset as i128;
                let cur = if cur0 < 0 {
                    0
                } else if cur0 > n - 1 {
                    n - 1
                } else {
                    cur0
                };
                let next0 = cur + delta;
                let next = if next0 < 0 {
                    0
                } else if next0 > n - 1 {
                    n - 1
                } else {
                    next0
                };
                let off = next - base;
                if off >= isize::MIN as i128 && off <= isize::MAX as i128 {
                    self.scroll_offset = off as isize;
                }
            }
        }
    }

    /// Takes in a key: `q`, Escape and Control-C end the view; `k` turns
    /// word highlighting on or off while playing; while paused, up and `k`
    /// show the line before and down and `j` the line after, within the
    /// lyrics.
    pub fn handle_key(&mut self, key: UiKey)
        ensures
            final(self).should_exit == (old(self).should_exit || key == UiKey::Char('q', false)
                || key == UiKey::Char('q', true) || key == UiKey::Esc || key == UiKey::Char(
                'c',
                true,
            )),
            final(self).karaoke_enabled == (if (key == UiKey::Char('k', false) || key
                == UiKey::Char('k', true)) && !is_paused(old(self).last_update) {
                !old(self).karaoke_enabled
            } else {
                old(self).karaoke_enabled
            }),
            ({
                let paused = is_paused(old(self).last_update);
                match scroll_delta(key, paused) {
                    Some(d) => {
                        let off = match old(self).last_update {
                            Some(u) => scrolled_offset(u, old(self).scroll_offset as int, d),
                            None => 0,
                        };
                        final(self).scroll_offset == (if paused && old(
                            self,
                        ).last_update->0.lines@.len() > 0 && isize::MIN <= off <= isize::MAX {
                            off as isize
                        } else {
                            old(self).scroll_offset
                        })
                    },
                    None => final(self).scroll_offset == old(self).scroll_offset,
                }
            }),
            final(self).last_update == old(self).last_update,
            final(self).last_track_id == old(self).last_track_id,
    {
        let paused = match &self.last_update {
            Some(u) => !u.playing,
            None => false,
        };
        match key {
            UiKey::Char(c, ctrl) => {
                if c == 'q' {
                    self.should_exit = true;
                } else if c == 'k' {
                    if paused {
                        self.scroll(-1);
                    } else {
                        self.karaoke_enabled = !self.karaoke_enabled;
                    }
                } else if c == 'j' {
                    self.scroll(1);
                } else if c == 'c' && ctrl {
                    self.should_exit = true;
                }
            },
            UiKey::Esc => {
                self.should_exit = true;
            },
            UiKey::Up => {
                self.scroll(-1);
            },
            UiKey::Down => {
                self.scroll(1);
            },
            UiKey::Other => {},
        }
    }
}

/// Scrolling law: while paused, a scroll by one line moves the line shown
/// as current by one line, stopping at the first and the last line.
pub proof fn lemma_scroll_moves_shown_line(u: Update, offset: int, delta: int)
    requires
        !u.playing,
        u.lines@.len() > 0,
        delta == -1 || delta == 1,
    ensures
        effective_index(u, u.lines@.len() as int, scrolled_offset(u, offset, delta)) == clamp_line(
            effective_index(u, u.lines@.len() as int, offset) + delta,
            u.lines@.len() as int,
        ),
{
}

/// What the pipe prints: an empty line, or a lyric line.
#[derive(Debug, Clone, PartialEq, Eq)]
pub enum PipeLine {
    Blank,
    Text(String),
}

/// The position of a snapshot advanced by `elapsed_ms` while playing.
pub open spec fn advanced_position(u: Update, elapsed_ms: Option<u64>) -> u64 {
    match elapsed_ms {
        Some(e) if u.playing => if u.position_ms + e > u64::MAX {
            u64::MAX
        } else {
            (u.position_ms + e) as u64
        },
        _ => u.position_ms,
    }
}

/// The pipe's state.
#[derive(Debug)]
pub struct PipeState {
    pub last_track_id: Option<(String, String, String)>,
    pub last_track_had_lyric: bool,
    pub last_line_idx: Option<usize>,
    pub last_update: Option<Update>,
}

impl PipeState {
    /// The initial state: nothing printed yet.
    pub fn new() -> (r: Self)
        ensures
            r.last_track_id is None,
            !r.last_track_had_lyric,
            r.last_line_idx is None,
            r.last_update is None,
    {
        PipeState { last_track_id: None, last_track_had_lyric: false, last_line_idx: None, last_update: None }
    }

    /// Prints the active line of `upd`, when it has one, and remembers it.
    fn print_current_line(&mut self, upd: &Update, out: &mut Vec<PipeLine>)
        ensures
            match upd.index {
                Some(i) => {
                    &&& final(self).last_line_idx == Some(i)
                    &&& if i < upd.lines@.len() {
                        &&& final(out)@ == old(out)@.push(PipeLine::Text(upd.lines@[i as int].text))
                        &&& final(self).last_track_had_lyric
                    } else {
                        &&& final(out)@ == old(out)@
                        &&& final(self).last_track_had_lyric == old(self).last_track_had_lyric
                    }
                },
                None => final(out)@ == old(out)@ && final(self).last_line_idx == old(
                    self,
                ).last_line_idx && final(self).last_track_had_lyric == old(
                    self,
                ).last_track_had_lyric,
            },
            final(self).last_track_id == old(self).last_track_id,
            final(self).last_update == old(self).last_update,
    {
        if let Some(idx) = upd.index {
            if idx < upd.lines.len() {
                out.push(PipeLine::Text(upd.lines[idx].text.clone()));
                self.last_track_had_lyric = true;
            }
            self.last_line_idx = Some(idx);
        }
    }

    /// Takes in a snapshot and answers what to print. On a new track: an
    /// empty line after any earlier track, the state reset, and the active
    /// line printed when there are lyrics and one is active. On the same
    /// track with lyrics, when the active line changed: the new line, or an
    /// empty line when none is active. The snapshot is kept for estimates.
    pub fn update_from_mpris(&mut self, upd: Update) -> (r: Vec<PipeLine>)
        ensures
            ({
                let id = (upd.artist@, upd.title@, upd.album@);
                let changed = !(old(self).last_track_id matches Some(l) && id_view(l) == id);
                let has_lyrics = upd.lines@.len() > 0;
                &&& final(self).last_track_id matches Some(l) && id_view(l) == id
                &&& final(self).last_update matches Some(x) && x.lines@ == upd.lines@ && x.index
                    == upd.index && x.position_ms == upd.position_ms
                &&& if changed {
                    let lead: Seq<PipeLine> = if old(self).last_track_id is Some {
                        seq![PipeLine::Blank]
                    } else {
                        Seq::empty()
                    };
                    match upd.index {
                        Some(i) if has_lyrics => {
                            &&& final(self).last_line_idx == Some(i)
                            &&& r@ == lead + if i < upd.lines@.len() {
                                seq![PipeLine::Text(upd.lines@[i as int].text)]
                            } else {
                                Seq::empty()
                            }
                        },
                        _ => final(self).last_line_idx is None && r@ == lead,
                    }
                } else if has_lyrics && upd.index != old(self).last_line_idx {
                    match upd.index {
                        None => r@ == seq![PipeLine::Blank] && final(self).last_line_idx is None,
                        Some(i) => final(self).last_line_idx == Some(i) && r@ == if i
                            < upd.lines@.len() {
                            seq![PipeLine::Text(upd.lines@[i as int].text)]
                        } else {
                            Seq::<PipeLine>::empty()
                        },
                    }
                } else {
                    r@.len() == 0 && final(self).last_line_idx == old(self).last_line_idx
                }
            }),
    {
        let id = track_id(&upd);
        let has_lyrics = upd.lines.len() > 0;
        let changed = !is_same_track(&self.last_track_id, &id);
        let mut out: Vec<PipeLine> = Vec::new();
        if changed {
            if self.last_track_id.is_some() {
                out.push(PipeLine::Blank);
            }
            self.last_update = None;
            self.last_line_idx = None;
            self.last_track_had_lyric = false;
            self.last_track_id = Some(id);
            if has_lyrics && upd.index.is_some() {
                self.print_current_line(&upd, &mut out);
            }
        } else {
            if has_lyrics && upd.index != self.last_line_idx {
                if upd.index.is_none() {
                    out.push(PipeLine::Blank);
                    self.last_line_idx = None;
                } else {
                    self.print_current_line(&upd, &mut out);
                }
            }
            self.last_track_id = Some(id);
        }
        self.last_update = Some(upd);
        out
    }

    /// Takes in a timer wake-up, `elapsed_ms` after the kept snapshot was
    /// taken (when known): the snapshot is advanced; when its active line
    /// changed, the new line is printed (if any) and the advanced snapshot
    /// kept. Answers what to print and whether the snapshot was replaced.
    pub fn handle_timer_wakeup(&mut self, elapsed_ms: Option<u64>) -> (r: (Vec<PipeLine>, bool))
        ensures
            final(self).last_track_id == old(self).last_track_id,
            match old(self).last_update {
                None => r.0@.len() == 0 && !r.1 && final(self).last_line_idx == old(
                    self,
                ).last_line_idx && final(self).last_update is None,
                Some(u) => {
                    let pos = advanced_position(u, elapsed_ms);
                    if r.1 {
                        &&& final(self).last_update matches Some(x) && x.lines@ == u.lines@
                            && x.position_ms == pos && x.playing == u.playing && (x.lines@.len()
                            <= 1 ==> x.index is None) && (x.lines@.len() > 1 && sorted_by_time(
                            x.lines@,
                        ) ==> is_active_index(x.lines@, pos, x.index)) && x.index != old(
                            self,
                        ).last_line_idx && final(self).last_line_idx == x.index && r.0@ == (
                        match x.index {
                            Some(i) => if i < x.lines@.len() {
                                seq![PipeLine::Text(x.lines@[i as int].text)]
                            } else {
                                Seq::empty()
                            },
                            None => Seq::empty(),
                        })
                    } else {
                        &&& r.0@.len() == 0
                        &&& final(self).last_update == old(self).last_update
                        &&& final(self).last_line_idx == old(self).last_line_idx
                        &&& u.lines@.len() <= 1 ==> old(self).last_line_idx is None
                        &&& u.lines@.len() > 1 && sorted_by_time(u.lines@) ==> is_active_index(
                            u.lines@,
                            pos,
                            old(self).last_line_idx,
                        )
                    }
                },
            },
    {
        let last = match &self.last_update {
            Some(u) => u,
            None => {
                return (Vec::new(), false);
            },
        };
        let estimated = estimate_update(last, elapsed_ms);
        let mut out: Vec<PipeLine> = Vec::new();
        if estimated.index != self.last_line_idx {
            if let Some(idx) = estimated.index {
                if idx < estimated.lines.len() {
                    out.push(PipeLine::Text(estimated.lines[idx].text.clone()));
                    self.last_track_had_lyric = true;
                }
            }
            self.last_line_idx = estimated.index;
            self.last_update = Some(estimated);
            (out, true)
        } else {
            (out, false)
        }
    }
}

} // verus!
