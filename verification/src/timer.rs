//! Playback position tracking between player reports.
//!
//! The timer keeps the last reported position (the anchor) and, while
//! playback runs, the monotonic instant at which that anchor was taken. A
//! running timer estimates the position as anchor plus the time elapsed since
//! that instant; a stopped one answers the anchor. Positions are integer
//! milliseconds and are never negative.

use vstd::prelude::*;
use std::time::Instant;

verus! {

#[verifier::external_type_specification]
#[verifier::external_body]
pub struct ExInstant(Instant);

/// Reads the monotonic clock (`Instant::now`).
#[verifier::external_body]
fn instant_now() -> Instant {
    Instant::now()
}

/// Whole milliseconds elapsed since `since` (`Instant::elapsed`, as
/// milliseconds). The result depends on the clock, so nothing is stated of
/// it.
#[verifier::external_body]
fn elapsed_millis(since: &Instant) -> u128 {
    since.elapsed().as_millis()
}

/// Milliseconds elapsed since `since`, saturated to `u64`.
fn elapsed_ms(since: &Instant) -> u64 {
    let ms = elapsed_millis(since);
    if ms > u64::MAX as u128 {
        u64::MAX
    } else {
        ms as u64
    }
}

/// A position report made valid: negative positions become zero.
pub open spec fn sanitized(position_ms: i64) -> u64 {
    if position_ms < 0 {
        0
    } else {
        position_ms as u64
    }
}

/// Makes a reported position valid for tracking: negative values become 0,
/// other values are kept.
pub fn sanitize_position(position_ms: i64) -> (r: u64)
    ensures
        r == sanitized(position_ms),
{
    if position_ms < 0 {
        0
    } else {
        position_ms as u64
    }
}

/// The estimate of a timer with anchor `anchor`, given whether playback runs,
/// whether the timer holds a start instant, and the milliseconds elapsed since
/// that instant: the anchor plus the elapsed time while running with an
/// instant, else the anchor. A sum that does not fit falls back to the anchor.
pub open spec fn estimate_value(anchor: u64, playing: bool, running: bool, elapsed: u64) -> u64 {
    if playing && running && anchor + elapsed <= u64::MAX {
        (anchor + elapsed) as u64
    } else {
        anchor
    }
}

/// Computes [`estimate_value`].
pub fn estimate_from(anchor: u64, playing: bool, running: bool, elapsed: u64) -> (r: u64)
    ensures
        r == estimate_value(anchor, playing, running, elapsed),
{
    if playing && running {
        match anchor.checked_add(elapsed) {
            Some(v) => v,
            None => anchor,
        }
    } else {
        anchor
    }
}

/// Position tracker combining the last reported position with a monotonic
/// clock.
#[derive(Debug)]
pub struct PlaybackTimer {
    anchor_position: u64,
    anchor_instant: Option<Instant>,
}

impl Default for PlaybackTimer {
    fn default() -> (r: Self)
        ensures
            r.anchor() == 0,
            !r.running(),
    {
        PlaybackTimer::new()
    }
}

impl PlaybackTimer {
    /// The anchor position, in milliseconds.
    pub closed spec fn anchor(&self) -> u64 {
        self.anchor_position
    }

    /// Whether the timer holds a start instant (it counts elapsed time).
    pub closed spec fn running(&self) -> bool {
        self.anchor_instant is Some
    }

    /// A timer at position 0 that does not count time.
    pub fn new() -> (r: Self)
        ensures
            r.anchor() == 0,
            !r.running(),
    {
        PlaybackTimer { anchor_position: 0, anchor_instant: None }
    }

    /// Moves the anchor to `position_ms` (sanitized) and stops counting time
    /// until playback is marked as running.
    pub fn reset(&mut self, position_ms: i64)
        ensures
            final(self).anchor() == sanitized(position_ms),
            !final(self).running(),
    {
        self.anchor_position = sanitize_position(position_ms);
        self.anchor_instant = None;
    }

    /// Moves the anchor to `position_ms` (sanitized) and counts elapsed time
    /// from now on.
    pub fn set_position(&mut self, position_ms: i64)
        ensures
            final(self).anchor() == sanitized(position_ms),
            final(self).running(),
    {
        self.anchor_position = sanitize_position(position_ms);
        self.anchor_instant = Some(instant_now());
    }

    /// Starts counting elapsed time from now, keeping the anchor.
    pub fn mark_playing(&mut self)
        ensures
            final(self).anchor() == old(self).anchor(),
            final(self).running(),
    {
        self.anchor_instant = Some(instant_now());
    }

    /// Stops counting elapsed time, keeping the anchor.
    pub fn mark_paused(&mut self)
        ensures
            final(self).anchor() == old(self).anchor(),
            !final(self).running(),
    {
        self.anchor_instant = None;
    }

    /// Estimates the current position: the anchor when `playing` is false or
    /// no instant is held, else the anchor plus the elapsed time.
    pub fn estimate(&self, playing: bool) -> (r: u64)
        ensures
            !(playing && self.running()) ==> r == self.anchor(),
            r >= self.anchor(),
            exists|elapsed: u64| r == estimate_value(self.anchor(), playing, self.running(), elapsed),
    {
        let elapsed = match &self.anchor_instant {
            Some(i) => elapsed_ms(i),
            None => 0,
        };
        let r = estimate_from(self.anchor_position, playing, self.anchor_instant.is_some(), elapsed);
        assert(r == estimate_value(self.anchor(), playing, self.running(), elapsed));
        r
    }

    /// The anchor position, without elapsed time.
    pub fn anchor_position(&self) -> (r: u64)
        ensures
            r == self.anchor(),
    {
        self.anchor_position
    }
}

} // verus!
