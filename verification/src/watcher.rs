//! Following one MPRIS player: which player to follow, and which of its
//! signals become events for the event loop. The D-Bus traffic is left to
//! the caller, which hands in what the player reported.

use vstd::prelude::*;
use crate::config::{first_followed, followed};
use crate::events::MprisEvent;
use crate::metadata::opt_view;
use crate::text::{same_text, views};
use crate::types::TrackMetadata;

verus! {

/// The followed player: its bus name (empty when none), its track, its
/// playback status and its position in milliseconds.
#[derive(Debug, Clone)]
pub struct WatchedPlayer {
    pub service: String,
    pub track: TrackMetadata,
    pub playback_status: String,
    pub position_ms: i64,
}

/// Whether two track metadata are equal.
pub open spec fn same_metadata(a: TrackMetadata, b: TrackMetadata) -> bool {
    &&& a.title@ == b.title@
    &&& a.artist@ == b.artist@
    &&& a.album@ == b.album@
    &&& a.length_ms == b.length_ms
    &&& opt_view(a.spotify_id) == opt_view(b.spotify_id)
    &&& opt_view(a.isrc) == opt_view(b.isrc)
    &&& opt_view(a.itunes_id) == opt_view(b.itunes_id)
}

fn same_opt_text(a: &Option<String>, b: &Option<String>) -> (r: bool)
    ensures
        r == (opt_view(*a) == opt_view(*b)),
{
    match (a, b) {
        (Some(x), Some(y)) => same_text(x.as_str(), y.as_str()),
        (None, None) => true,
        _ => false,
    }
}

/// Compares two track metadata field by field.
pub fn metadata_equal(a: &TrackMetadata, b: &TrackMetadata) -> (r: bool)
    ensures
        r == same_metadata(*a, *b),
{
    same_text(a.title.as_str(), b.title.as_str()) && same_text(a.artist.as_str(), b.artist.as_str())
        && same_text(a.album.as_str(), b.album.as_str()) && a.length_ms == b.length_ms
        && same_opt_text(&a.spotify_id, &b.spotify_id) && same_opt_text(&a.isrc, &b.isrc)
        && same_opt_text(&a.itunes_id, &b.itunes_id)
}

/// A copy of track metadata.
pub fn copy_metadata(m: &TrackMetadata) -> (r: TrackMetadata)
    ensures
        r == *m,
{
    let spotify_id = match &m.spotify_id {
        Some(s) => Some(s.clone()),
        None => None,
    };
    let isrc = match &m.isrc {
        Some(s) => Some(s.clone()),
        None => None,
    };
    let itunes_id = match &m.itunes_id {
        Some(s) => Some(s.clone()),
        None => None,
    };
    TrackMetadata {
        title: m.title.clone(),
        artist: m.artist.clone(),
        album: m.album.clone(),
        length_ms: m.length_ms,
        spotify_id,
        isrc,
        itunes_id,
    }
}

/// Empty metadata.
pub fn empty_metadata() -> (r: TrackMetadata)
    ensures
        r.title@.len() == 0,
        r.artist@.len() == 0,
        r.album@.len() == 0,
        r.length_ms is None,
        r.spotify_id is None,
        r.isrc is None,
        r.itunes_id is None,
{
    TrackMetadata {
        title: String::new(),
        artist: String::new(),
        album: String::new(),
        length_ms: None,
        spotify_id: None,
        isrc: None,
        itunes_id: None,
    }
}

/// A position in microseconds as whole milliseconds, rounded toward zero.
pub open spec fn us_to_ms(us: i64) -> i64 {
    if us >= 0 {
        (us / 1000) as i64
    } else {
        (-((-us) / 1000)) as i64
    }
}

fn micros_to_millis(us: i64) -> (r: i64)
    ensures
        r == us_to_ms(us),
{
    if us >= 0 {
        us / 1000
    } else {
        let m: i128 = (-(us as i128)) / 1000;
        -(m as i64)
    }
}

/// What the watcher decides after the list of players changed.
#[derive(Debug, Clone, PartialEq, Eq)]
pub enum Discovery {
    /// Follow this player instead.
    SwitchTo(String),
    /// No player is left: stop following.
    Deactivate,
    /// Nothing changes.
    Keep,
}

impl WatchedPlayer {
    /// No player followed.
    pub fn new() -> (r: Self)
        ensures
            r.service@.len() == 0,
            r.playback_status@.len() == 0,
            r.position_ms == 0,
            r.track.title@.len() == 0,
            r.track.artist@.len() == 0,
            r.track.album@.len() == 0,
            r.track.length_ms is None,
            r.track.spotify_id is None,
            r.track.isrc is None,
            r.track.itunes_id is None,
    {
        WatchedPlayer {
            service: String::new(),
            track: empty_metadata(),
            playback_status: String::new(),
            position_ms: 0,
        }
    }

    /// Whether a player is followed.
    pub fn is_active(&self) -> (r: bool)
        ensures
            r == (self.service@.len() > 0),
    {
        !self.service.as_str().is_empty()
    }

    /// A seek signal: the position moves there and the loop hears a seek.
    pub fn on_seek_signal(&mut self, position_us: i64) -> (r: MprisEvent)
        ensures
            final(self).position_ms == us_to_ms(position_us),
            final(self).service == old(self).service,
            final(self).track == old(self).track,
            r matches MprisEvent::Seeked(m, p, s) && m == old(self).track && p == us_to_ms(
                position_us,
            ) && s@ == old(self).service@,
    {
        self.position_ms = micros_to_millis(position_us);
        MprisEvent::Seeked(copy_metadata(&self.track), self.position_ms, self.service.clone())
    }

    /// New metadata: when it differs from the track followed, it becomes the
    /// track (with the position, when it could be read) and the loop hears a
    /// full update.
    pub fn on_metadata(&mut self, new_track: TrackMetadata, position_us: Option<i64>) -> (r: Option<
        MprisEvent,
    >)
        ensures
            same_metadata(new_track, old(self).track) ==> r is None && *final(self) == *old(self),
            !same_metadata(new_track, old(self).track) ==> {
                &&& final(self).track == new_track
                &&& final(self).position_ms == (match position_us {
                    Some(us) => us_to_ms(us),
                    None => old(self).position_ms,
                })
                &&& final(self).service == old(self).service
                &&& r matches Some(MprisEvent::PlayerUpdate(m, p, s)) && m == new_track && p
                    == final(self).position_ms && s@ == old(self).service@
            },
    {
        if metadata_equal(&new_track, &self.track) {
            return None;
        }
        self.track = new_track;
        if let Some(us) = position_us {
            self.position_ms = micros_to_millis(us);
        }
        Some(
            MprisEvent::PlayerUpdate(
                copy_metadata(&self.track),
                self.position_ms,
                self.service.clone(),
            ),
        )
    }

    /// A position change: when the position could be read, it is taken over
    /// and the loop hears a seek.
    pub fn on_position(&mut self, position_us: Option<i64>) -> (r: Option<MprisEvent>)
        ensures
            match position_us {
                Some(us) => final(self).position_ms == us_to_ms(us) && (r matches Some(
                    MprisEvent::Seeked(m, p, s),
                ) && m == old(self).track && p == us_to_ms(us) && s@ == old(self).service@),
                None => r is None && *final(self) == *old(self),
            },
            final(self).track == old(self).track,
            final(self).service == old(self).service,
    {
        match position_us {
            Some(us) => Some(self.on_seek_signal(us)),
            None => None,
        }
    }

    /// A playback status change: when the status could be read and differs,
    /// it is taken over, with the position when that could be read too, and
    /// the loop hears a full update.
    pub fn on_status(&mut self, status: Option<String>, position_ms: Option<i64>) -> (r: Option<
        MprisEvent,
    >)
        ensures
            match status {
                Some(st) => if st@ != old(self).playback_status@ {
                    &&& final(self).playback_status@ == st@
                    &&& final(self).position_ms == (match position_ms {
                        Some(p) => p,
                        None => old(self).position_ms,
                    })
                    &&& r matches Some(MprisEvent::PlayerUpdate(m, p, s)) && m == old(self).track
                        && p == final(self).position_ms && s@ == old(self).service@
                } else {
                    r is None && *final(self) == *old(self)
                },
                None => r is None && *final(self) == *old(self),
            },
            final(self).track == old(self).track,
            final(self).service == old(self).service,
    {
        let st = match status {
            Some(s) => s,
            None => {
                return None;
            },
        };
        if same_text(st.as_str(), self.playback_status.as_str()) {
            return None;
        }
        self.playback_status = st;
        if let Some(p) = position_ms {
            self.position_ms = p;
        }
        Some(
            MprisEvent::PlayerUpdate(
                copy_metadata(&self.track),
                self.position_ms,
                self.service.clone(),
            ),
        )
    }

    /// Which player to follow now that the list of players is `names`: the
    /// first one followed under `block_list` and `target`, when it is not the
    /// one followed already; none left deactivates a followed player.
    pub fn discover(&self, names: &Vec<String>, block_list: &Vec<String>, target: &Vec<String>) -> (r:
        Discovery)
        ensures
            ({
                let bl = views(block_list@);
                let tl = views(target@);
                match r {
                    Discovery::SwitchTo(s) => s@ != self.service@ && exists|i: int|
                        0 <= i < names@.len() && names@[i]@ == s@ && followed(s@, bl, tl)
                            && forall|j: int|
                            0 <= j < i ==> !followed(#[trigger] names@[j]@, bl, tl),
                    Discovery::Deactivate => self.service@.len() > 0 && forall|j: int|
                        0 <= j < names@.len() ==> !followed(#[trigger] names@[j]@, bl, tl),
                    Discovery::Keep => (exists|i: int|
                        0 <= i < names@.len() && names@[i]@ == self.service@ && followed(
                            self.service@,
                            bl,
                            tl,
                        ) && forall|j: int|
                            0 <= j < i ==> !followed(#[trigger] names@[j]@, bl, tl)) || (
                    self.service@.len() == 0 && forall|j: int|
                        0 <= j < names@.len() ==> !followed(#[trigger] names@[j]@, bl, tl)),
                }
            }),
    {
        match first_followed(names, block_list, target) {
            Some(s) => {
                if same_text(s.as_str(), self.service.as_str()) {
                    Discovery::Keep
                } else {
                    Discovery::SwitchTo(s)
                }
            },
            None => {
                if self.is_active() {
                    Discovery::Deactivate
                } else {
                    Discovery::Keep
                }
            },
        }
    }

    /// Starts following `service` with what it reported (empty metadata,
    /// position 0 and `Stopped` for what could not be read); the loop hears
    /// a full update.
    pub fn switch_to(
        &mut self,
        service: &str,
        metadata: Option<TrackMetadata>,
        position_us: Option<i64>,
        status: Option<String>,
    ) -> (r: MprisEvent)
        ensures
            final(self).service@ == service@,
            metadata matches Some(m) ==> final(self).track == m,
            metadata is None ==> final(self).track.title@.len() == 0 && final(self).track.artist@.len()
                == 0 && final(self).track.album@.len() == 0,
            final(self).position_ms == (match position_us {
                Some(us) => us_to_ms(us),
                None => 0,
            }),
            final(self).playback_status@ == (match status {
                Some(s) => s@,
                None => "Stopped"@,
            }),
            r matches MprisEvent::PlayerUpdate(m, p, s) && m == final(self).track && p
                == final(self).position_ms && s@ == service@,
    {
        let track = match metadata {
            Some(m) => m,
            None => empty_metadata(),
        };
        let position = match position_us {
            Some(us) => micros_to_millis(us),
            None => 0,
        };
        let playback_status = match status {
            Some(s) => s,
            None => String::from_str("Stopped"),
        };
        self.service = String::from_str(service);
        self.track = track;
        self.playback_status = playback_status;
        self.position_ms = position;
        MprisEvent::PlayerUpdate(copy_metadata(&self.track), self.position_ms, String::from_str(service))
    }

    /// Stops following the player; the loop hears that no player is left
    /// (empty metadata at position 0 from an empty bus name).
    pub fn deactivate(&mut self) -> (r: MprisEvent)
        ensures
            final(self).service@.len() == 0,
            final(self).playback_status@.len() == 0,
            final(self).position_ms == 0,
            r matches MprisEvent::PlayerUpdate(m, p, s) && m.title@.len() == 0 && m.artist@.len()
                == 0 && m.album@.len() == 0 && p == 0 && s@.len() == 0,
    {
        *self = WatchedPlayer::new();
        MprisEvent::PlayerUpdate(empty_metadata(), 0, String::new())
    }
}

} // verus!
