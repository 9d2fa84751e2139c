//! A simpler play queue: a list of tracks and, while playing, the position
//! in it.
use vstd::prelude::*;
use crate::library::Track;

verus! {

/// What is playing: which track of the queue, and how far into it (in
/// milliseconds).
#[derive(Debug, Clone, Copy, PartialEq, Eq, Structural)]
pub struct PlayState {
    pub timestamp_ms: u64,
    pub track_index: usize,
}

/// All the tracks that are currently playing.
#[derive(Debug)]
pub struct PlayQueue {
    pub tracks: Vec<Track>,
    /// `None` before playing starts and after the last track finishes.
    current: Option<PlayState>,
}

impl PlayQueue {
    /// The current position is one of the tracks.
    pub closed spec fn wf(self) -> bool {
        self.current matches Some(c) ==> c.track_index < self.tracks@.len()
    }

    pub closed spec fn tracks_view(self) -> Seq<Track> {
        self.tracks@
    }

    pub closed spec fn current_state(self) -> Option<PlayState> {
        self.current
    }

    /// A queue of the given tracks, not playing.
    pub fn new(tracks: Vec<Track>) -> (q: PlayQueue)
        ensures
            q.wf(),
            q.tracks_view() == tracks@,
            q.current_state() is None,
    {
        PlayQueue { tracks, current: None }
    }

    /// Starts playing the track at `track_index` from `timestamp_ms`.
    pub fn set_current(&mut self, state: Option<PlayState>)
        requires
            state matches Some(c) ==> c.track_index < old(self).tracks_view().len(),
        ensures
            final(self).wf(),
            final(self).tracks_view() == old(self).tracks_view(),
            final(self).current_state() == state,
    {
        self.current = state;
    }

    /// The track being played, if any.
    pub fn current_track(&self) -> (t: Option<&Track>)
        requires
            self.wf(),
        ensures
            match self.current_state() {
                Some(c) => t == Some(&self.tracks_view()[c.track_index as int]),
                None => t is None,
            },
    {
        match self.current {
            Some(c) => Some(&self.tracks[c.track_index]),
            None => None,
        }
    }

    /// The position being played, if any.
    pub fn current(&self) -> (c: Option<&PlayState>)
        ensures
            match self.current_state() {
                Some(s) => c == Some(&s),
                None => c is None,
            },
    {
        self.current.as_ref()
    }

    /// Advances to the next track, from its start. With no current track
    /// it moves to the first track; at the last track it clears the current
    /// track (playing is off the end of the queue). An empty queue is left
    /// as it is.
    pub fn next_track(&mut self)
        requires
            old(self).wf(),
        ensures
            final(self).wf(),
            final(self).tracks_view() == old(self).tracks_view(),
            old(self).tracks_view().len() == 0 ==> final(self).current_state() == old(self).current_state(),
            old(self).tracks_view().len() > 0 ==> final(self).current_state() == match old(self).current_state() {
                None => Some(PlayState { timestamp_ms: 0, track_index: 0 }),
                Some(c) => if c.track_index + 1 < old(self).tracks_view().len() {
                    Some(PlayState { timestamp_ms: 0, track_index: (c.track_index + 1) as usize })
                } else {
                    None
                },
            },
    {
        if self.tracks.len() == 0 {
            return;
        }
        self.current = match self.current {
            None => Some(PlayState { timestamp_ms: 0, track_index: 0 }),
            Some(c) => if c.track_index + 1 < self.tracks.len() {
                Some(PlayState { timestamp_ms: 0, track_index: c.track_index + 1 })
            } else {
                None
            },
        };
    }

    /// Stops playing.
    pub fn stop(&mut self)
        ensures
            final(self).tracks_view() == old(self).tracks_view(),
            final(self).wf(),
            final(self).current_state() is None,
    {
        self.current = None;
    }
}

} // verus!
