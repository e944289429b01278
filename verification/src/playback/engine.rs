//! The demo playback engine: it plays nothing, but moves through a track of
//! four minutes the way a real engine would report it.

use std::time::Duration;
use vstd::prelude::*;
use vstd::string::*;

use crate::errors::{Result, SymphonyError};
use crate::types::{PlaybackStatus, TrackId};

verus! {

/// How long every demo track lasts, in milliseconds.
pub const TRACK_LENGTH_MS: u64 = 240_000;

/// How far one step of simulated progress moves, in milliseconds.
pub const STEP_MS: u64 = 250;

/// The text std's `Debug` gives for a seek beyond the end: "Seek position
/// {position:?} exceeds duration {duration:?}" with both times written as
/// `Duration` values. The `Debug` writing of a `Duration` takes pages to
/// state; it depends on the two times alone.
pub uninterp spec fn seek_error_text(position_ms: u64, duration_ms: u64) -> Seq<char>;

/// `format!` with `Duration`'s `Debug`; the result is named by
/// `seek_error_text`.
#[verifier::external_body]
fn seek_error_message(position_ms: u64, duration_ms: u64) -> (s: String)
    ensures
        s@ == seek_error_text(position_ms, duration_ms),
{
    format!(
        "Seek position {:?} exceeds duration {:?}",
        Duration::from_millis(position_ms),
        Duration::from_millis(duration_ms)
    )
}

pub struct MockPlaybackEngine {
    status: PlaybackStatus,
    position_ms: u64,
    duration_ms: u64,
    muted: bool,
    current_track_id: Option<TrackId>,
}

impl MockPlaybackEngine {
    /// The position never passes the end, and the end is that of a demo track.
    #[verifier::type_invariant]
    spec fn inv(self) -> bool {
        self.position_ms <= self.duration_ms <= TRACK_LENGTH_MS
    }

    pub closed spec fn spec_status(&self) -> PlaybackStatus {
        self.status
    }

    pub closed spec fn spec_position_ms(&self) -> u64 {
        self.position_ms
    }

    pub closed spec fn spec_duration_ms(&self) -> u64 {
        self.duration_ms
    }

    pub closed spec fn spec_muted(&self) -> bool {
        self.muted
    }

    pub closed spec fn spec_track(&self) -> Option<TrackId> {
        self.current_track_id
    }

    pub fn new() -> (e: Self)
        ensures
            e.spec_status() == PlaybackStatus::Stopped,
            e.spec_position_ms() == 0,
            e.spec_duration_ms() == TRACK_LENGTH_MS,
            !e.spec_muted(),
            e.spec_track() is None,
    {
        MockPlaybackEngine {
            status: PlaybackStatus::Stopped,
            position_ms: 0,
            duration_ms: TRACK_LENGTH_MS,
            muted: false,
            current_track_id: None,
        }
    }

    /// Starts `track_id` from its beginning. The stream address is not read.
    pub fn play(&mut self, track_id: &TrackId, _stream_url: &str) -> (r: Result<()>)
        ensures
            r is Ok,
            final(self).spec_status() == PlaybackStatus::Playing,
            final(self).spec_position_ms() == 0,
            final(self).spec_duration_ms() == TRACK_LENGTH_MS,
            final(self).spec_track() == Some(*track_id),
            final(self).spec_muted() == old(self).spec_muted(),
    {
        proof {
            use_type_invariant(&*self);
        }
        self.status = PlaybackStatus::Playing;
        self.position_ms = 0;
        self.duration_ms = TRACK_LENGTH_MS;
        self.current_track_id = Some(track_id.clone());
        Ok(())
    }

    /// One step of simulated progress; true while the track still plays.
    /// At the end of the track the engine stops and forgets the track.
    pub fn advance(&mut self) -> (playing: bool)
        ensures
            old(self).spec_status() != PlaybackStatus::Playing ==> *final(self) == *old(self),
            old(self).spec_status() == PlaybackStatus::Playing ==> if old(self).spec_position_ms()
                + STEP_MS >= old(self).spec_duration_ms() {
                &&& final(self).spec_status() == PlaybackStatus::Stopped
                &&& final(self).spec_position_ms() == 0
                &&& final(self).spec_track() is None
            } else {
                &&& final(self).spec_status() == PlaybackStatus::Playing
                &&& final(self).spec_position_ms() == old(self).spec_position_ms() + STEP_MS
                &&& final(self).spec_track() == old(self).spec_track()
            },
            final(self).spec_duration_ms() == old(self).spec_duration_ms(),
            final(self).spec_muted() == old(self).spec_muted(),
            playing == (final(self).spec_status() == PlaybackStatus::Playing),
    {
        proof {
            use_type_invariant(&*self);
        }
        match self.status {
            PlaybackStatus::Playing => {
                let next = self.position_ms + STEP_MS;
                if next >= self.duration_ms {
                    self.status = PlaybackStatus::Stopped;
                    self.position_ms = 0;
                    self.current_track_id = None;
                    false
                } else {
                    self.position_ms = next;
                    true
                }
            },
            PlaybackStatus::Paused | PlaybackStatus::Stopped => false,
        }
    }

    pub fn pause(&mut self) -> (r: Result<()>)
        ensures
            old(self).spec_status() == PlaybackStatus::Playing ==> r is Ok
                && final(self).spec_status() == PlaybackStatus::Paused,
            old(self).spec_status() != PlaybackStatus::Playing ==> *final(self) == *old(self)
                && (r matches Err(SymphonyError::Playback(m)) && m@ == "Cannot pause: not playing"@),
            final(self).spec_position_ms() == old(self).spec_position_ms(),
            final(self).spec_duration_ms() == old(self).spec_duration_ms(),
            final(self).spec_track() == old(self).spec_track(),
            final(self).spec_muted() == old(self).spec_muted(),
    {
        proof {
            use_type_invariant(&*self);
        }
        match self.status {
            PlaybackStatus::Playing => {
                self.status = PlaybackStatus::Paused;
                Ok(())
            },
            _ => Err(SymphonyError::playback(String::from_str("Cannot pause: not playing"))),
        }
    }

    pub fn resume(&mut self) -> (r: Result<()>)
        ensures
            old(self).spec_status() == PlaybackStatus::Paused ==> r is Ok
                && final(self).spec_status() == PlaybackStatus::Playing,
            old(self).spec_status() != PlaybackStatus::Paused ==> *final(self) == *old(self)
                && (r matches Err(SymphonyError::Playback(m)) && m@ == "Cannot resume: not paused"@),
            final(self).spec_position_ms() == old(self).spec_position_ms(),
            final(self).spec_duration_ms() == old(self).spec_duration_ms(),
            final(self).spec_track() == old(self).spec_track(),
            final(self).spec_muted() == old(self).spec_muted(),
    {
        proof {
            use_type_invariant(&*self);
        }
        match self.status {
            PlaybackStatus::Paused => {
                self.status = PlaybackStatus::Playing;
                Ok(())
            },
            _ => Err(SymphonyError::playback(String::from_str("Cannot resume: not paused"))),
        }
    }

    pub fn stop(&mut self) -> (r: Result<()>)
        ensures
            r is Ok,
            final(self).spec_status() == PlaybackStatus::Stopped,
            final(self).spec_position_ms() == 0,
            final(self).spec_track() is None,
            final(self).spec_duration_ms() == old(self).spec_duration_ms(),
            final(self).spec_muted() == old(self).spec_muted(),
    {
        proof {
            use_type_invariant(&*self);
        }
        self.status = PlaybackStatus::Stopped;
        self.position_ms = 0;
        self.current_track_id = None;
        Ok(())
    }

    /// Moves to `position_ms`; a position past the end is refused.
    pub fn seek(&mut self, position_ms: u64) -> (r: Result<()>)
        ensures
            position_ms > old(self).spec_duration_ms() ==> *final(self) == *old(self)
                && (r matches Err(SymphonyError::Playback(m)) && m@ == seek_error_text(
                position_ms,
                old(self).spec_duration_ms(),
            )),
            position_ms <= old(self).spec_duration_ms() ==> r is Ok
                && final(self).spec_position_ms() == position_ms,
            final(self).spec_status() == old(self).spec_status(),
            final(self).spec_duration_ms() == old(self).spec_duration_ms(),
            final(self).spec_track() == old(self).spec_track(),
            final(self).spec_muted() == old(self).spec_muted(),
    {
        proof {
            use_type_invariant(&*self);
        }
        if position_ms > self.duration_ms {
            return Err(SymphonyError::playback(seek_error_message(position_ms, self.duration_ms)));
        }
        self.position_ms = position_ms;
        Ok(())
    }

    pub fn status(&self) -> (s: PlaybackStatus)
        ensures
            s == self.spec_status(),
    {
        self.status
    }

    pub fn position_ms(&self) -> (p: u64)
        ensures
            p == self.spec_position_ms(),
            p <= self.spec_duration_ms(),
    {
        proof {
            use_type_invariant(self);
        }
        self.position_ms
    }

    pub fn duration_ms(&self) -> (d: u64)
        ensures
            d == self.spec_duration_ms(),
    {
        self.duration_ms
    }

    pub fn is_muted(&self) -> (m: bool)
        ensures
            m == self.spec_muted(),
    {
        self.muted
    }

    pub fn set_mute(&mut self, muted: bool)
        ensures
            final(self).spec_muted() == muted,
            final(self).spec_status() == old(self).spec_status(),
            final(self).spec_position_ms() == old(self).spec_position_ms(),
            final(self).spec_duration_ms() == old(self).spec_duration_ms(),
            final(self).spec_track() == old(self).spec_track(),
    {
        proof {
            use_type_invariant(&*self);
        }
        self.muted = muted;
    }

    /// The current track, if one plays or is paused.
    pub fn current_track_id(&self) -> (t: Option<&TrackId>)
        ensures
            match t {
                Some(x) => self.spec_track() == Some(*x),
                None => self.spec_track() is None,
            },
    {
        self.current_track_id.as_ref()
    }
}

} // verus!
