//! The player's state: the play queue, whether playback is paused, and how
//! far into the current track it is. Opening files and streaming audio are
//! done by the caller, as the [`PlayerAction`] each change returns asks.
use std::sync::Arc;
use vstd::prelude::*;
use crate::library::Track;
use crate::play_queue::{LoopStatus, PlayQueue, PlayQueueView, next_index, previous_index};

verus! {

/// A position in a play queue: which track, and how far into it (in
/// milliseconds).
#[derive(Debug, Clone, Copy, PartialEq, Eq, Structural)]
pub struct PlayPosition {
    track_index: usize,
    timestamp_ms: u64,
}

impl PlayPosition {
    pub fn new(track_index: usize, timestamp_ms: u64) -> (p: PlayPosition)
        ensures
            p.track_index() == track_index,
            p.timestamp_ms() == timestamp_ms,
    {
        PlayPosition { track_index, timestamp_ms }
    }

    pub closed spec fn track_index(self) -> usize {
        self.track_index
    }

    pub closed spec fn timestamp_ms(self) -> u64 {
        self.timestamp_ms
    }
}

/// What the caller has to do to the audio output after a change.
#[derive(Debug)]
pub enum PlayerAction {
    /// Nothing.
    Keep,
    /// Drop the current source: nothing plays.
    Stop,
    /// Open this track and play it from the start, in place of the current
    /// source.
    Load(Arc<Track>),
}

/// What the player knows: the queue, whether it is paused, and the last
/// reported position in the current track.
#[derive(Debug)]
pub struct Player {
    queue: PlayQueue,
    paused: bool,
    timestamp_ms: Option<u64>,
}

/// The contents of a [`Player`].
pub struct PlayerView {
    pub queue: PlayQueueView,
    pub paused: bool,
    pub timestamp_ms: Option<u64>,
}

impl View for Player {
    type V = PlayerView;

    closed spec fn view(&self) -> PlayerView {
        PlayerView { queue: self.queue@, paused: self.paused, timestamp_ms: self.timestamp_ms }
    }
}

/// The current track of a queue, if any.
pub open spec fn current_of(q: PlayQueueView) -> Option<Arc<Track>> {
    match q.index {
        Some(i) => Some(q.tracks[i as int]),
        None => None,
    }
}

/// The action that makes the output play the queue's position `index`.
pub open spec fn action_for(q: PlayQueueView, index: Option<usize>) -> PlayerAction {
    match index {
        None => PlayerAction::Stop,
        Some(i) => PlayerAction::Load(q.tracks[i as int]),
    }
}

impl Player {
    /// The queue is consistent.
    pub closed spec fn wf(self) -> bool {
        self.queue.wf()
    }

    /// A paused player with an empty queue.
    pub fn new() -> (p: Player)
        ensures
            p.wf(),
            p@.queue.index is None,
            p@.queue.tracks.len() == 0,
            p@.queue.loop_status == LoopStatus::Off,
            !p@.queue.shuffled,
            p@.paused,
            p@.timestamp_ms is None,
    {
        Player { queue: PlayQueue::default(), paused: true, timestamp_ms: None }
    }

    pub fn queue(&self) -> (q: &PlayQueue)
        ensures
            q@ == self@.queue,
            self.wf() ==> q.wf(),
    {
        &self.queue
    }

    /// The currently-playing track.
    pub fn current(&self) -> (t: Option<Arc<Track>>)
        requires
            self.wf(),
        ensures
            t == current_of(self@.queue),
    {
        self.queue.current_track()
    }

    /// How far into the current track playback is, in milliseconds.
    pub fn timestamp(&self) -> (t: Option<u64>)
        ensures
            t == self@.timestamp_ms,
    {
        self.timestamp_ms
    }

    pub fn set_timestamp(&mut self, timestamp_ms: Option<u64>)
        requires
            old(self).wf(),
        ensures
            final(self).wf(),
            final(self)@ == (PlayerView { timestamp_ms, ..old(self)@ }),
    {
        self.timestamp_ms = timestamp_ms;
    }

    /// Replaces the queue with `tracks`, keeping the loop and shuffle
    /// settings, and stops playback.
    pub fn set_play_queue(&mut self, tracks: Vec<Arc<Track>>) -> (a: PlayerAction)
        requires
            old(self).wf(),
        ensures
            final(self).wf(),
            a is Stop,
            final(self)@.queue.index is None,
            final(self)@.queue.original_order == tracks@,
            final(self)@.queue.tracks.to_multiset() == tracks@.to_multiset(),
            !old(self)@.queue.shuffled ==> final(self)@.queue.tracks == tracks@,
            final(self)@.queue.loop_status == old(self)@.queue.loop_status,
            final(self)@.queue.shuffled == old(self)@.queue.shuffled,
            final(self)@.paused == old(self)@.paused,
            final(self)@.timestamp_ms == old(self)@.timestamp_ms,
    {
        let _ = self.stop();
        let ghost given = tracks@;
        let mut queue = PlayQueue::new(tracks);
        queue.set_loop_status(self.queue.loop_status());
        queue.set_shuffle(self.queue.shuffle());
        proof {
            queue.lemma_wf();
        }
        self.queue = queue;
        PlayerAction::Stop
    }

    /// Adds a track to the end of the queue.
    pub fn queue_push(&mut self, track: Arc<Track>)
        requires
            old(self).wf(),
        ensures
            final(self).wf(),
            final(self)@.queue == (PlayQueueView {
                tracks: old(self)@.queue.tracks.push(track),
                original_order: old(self)@.queue.original_order.push(track),
                ..old(self)@.queue
            }),
            final(self)@.paused == old(self)@.paused,
            final(self)@.timestamp_ms == old(self)@.timestamp_ms,
    {
        self.queue.push(track);
    }

    /// Makes the track at `index` the current one and asks for it to be
    /// played; `None` stops.
    pub fn set_queue_index(&mut self, index: Option<usize>) -> (a: PlayerAction)
        requires
            old(self).wf(),
            index matches Some(i) ==> i < old(self)@.queue.tracks.len(),
        ensures
            final(self).wf(),
            final(self)@ == (PlayerView { queue: PlayQueueView { index, ..old(self)@.queue }, ..old(self)@ }),
            a == action_for(old(self)@.queue, index),
    {
        match index {
            None => self.stop(),
            Some(i) => {
                self.queue.set_current(index);
                match self.queue.current_track() {
                    Some(track) => PlayerAction::Load(track),
                    None => PlayerAction::Stop,
                }
            },
        }
    }

    /// Moves to the previous track, or stops if there is none.
    pub fn previous(&mut self) -> (a: PlayerAction)
        requires
            old(self).wf(),
        ensures
            final(self).wf(),
            final(self)@ == (PlayerView {
                queue: PlayQueueView { index: previous_index(old(self)@.queue), ..old(self)@.queue },
                ..old(self)@
            }),
            a == action_for(old(self)@.queue, previous_index(old(self)@.queue)),
    {
        let index = self.queue.previous();
        self.set_queue_index(index)
    }

    /// Moves to the next track, or stops if this was the last.
    pub fn next(&mut self) -> (a: PlayerAction)
        requires
            old(self).wf(),
        ensures
            final(self).wf(),
            final(self)@ == (PlayerView {
                queue: PlayQueueView { index: next_index(old(self)@.queue), ..old(self)@.queue },
                ..old(self)@
            }),
            a == action_for(old(self)@.queue, next_index(old(self)@.queue)),
    {
        let index = self.queue.next();
        self.set_queue_index(index)
    }

    /// Starts playback. With no current track and a non-empty queue, the
    /// first track becomes current and has to be loaded; the caller unpauses
    /// once it is. Otherwise this unpauses.
    pub fn play(&mut self) -> (a: PlayerAction)
        requires
            old(self).wf(),
        ensures
            final(self).wf(),
            (old(self)@.queue.index is None && old(self)@.queue.tracks.len() > 0) ==> {
                &&& final(self)@ == (PlayerView { queue: PlayQueueView { index: Some(0usize), ..old(self)@.queue }, ..old(self)@ })
                &&& a == PlayerAction::Load(old(self)@.queue.tracks[0])
            },
            !(old(self)@.queue.index is None && old(self)@.queue.tracks.len() > 0) ==> {
                &&& final(self)@ == (PlayerView { paused: false, ..old(self)@ })
                &&& a is Keep
            },
    {
        if self.queue.current().is_none() && !self.queue.is_empty() {
            return self.set_queue_index(Some(0));
        }
        self.paused = false;
        PlayerAction::Keep
    }

    /// Audio is being produced: not paused, and there is a current track.
    pub fn playing(&self) -> (b: bool)
        ensures
            b == (!self@.paused && self@.queue.index is Some),
    {
        !self.paused && self.queue.current().is_some()
    }

    /// Nothing is current in the queue.
    pub fn stopped(&self) -> (b: bool)
        ensures
            b == self@.queue.index is None,
    {
        self.queue.current().is_none()
    }

    pub fn paused(&self) -> (b: bool)
        ensures
            b == self@.paused,
    {
        self.paused
    }

    pub fn set_paused(&mut self, paused: bool)
        requires
            old(self).wf(),
        ensures
            final(self).wf(),
            final(self)@ == (PlayerView { paused, ..old(self)@ }),
    {
        self.paused = paused;
    }

    /// Pauses if playing; otherwise changes nothing.
    pub fn pause(&mut self)
        requires
            old(self).wf(),
        ensures
            final(self).wf(),
            final(self)@ == (PlayerView {
                paused: old(self)@.paused || old(self)@.queue.index is Some,
                ..old(self)@
            }),
    {
        if self.playing() {
            self.paused = true;
        }
    }

    /// Stops playback: nothing is current any more.
    pub fn stop(&mut self) -> (a: PlayerAction)
        requires
            old(self).wf(),
        ensures
            final(self).wf(),
            final(self)@ == (PlayerView { queue: PlayQueueView { index: None, ..old(self)@.queue }, ..old(self)@ }),
            a is Stop,
    {
        self.queue.set_current(None);
        PlayerAction::Stop
    }

    pub fn set_loop_status(&mut self, loop_status: LoopStatus)
        requires
            old(self).wf(),
        ensures
            final(self).wf(),
            final(self)@ == (PlayerView { queue: PlayQueueView { loop_status, ..old(self)@.queue }, ..old(self)@ }),
    {
        self.queue.set_loop_status(loop_status);
    }

    /// Turns shuffling on or off (see [`PlayQueue::set_shuffle`]).
    pub fn set_shuffle(&mut self, shuffle: bool)
        requires
            old(self).wf(),
        ensures
            final(self).wf(),
            final(self)@.queue.shuffled == shuffle,
            final(self)@.queue.loop_status == old(self)@.queue.loop_status,
            final(self)@.queue.original_order == old(self)@.queue.original_order,
            shuffle == old(self)@.queue.shuffled ==> final(self)@ == old(self)@,
            !shuffle ==> final(self)@.queue.tracks == old(self)@.queue.original_order,
            final(self)@.paused == old(self)@.paused,
            final(self)@.timestamp_ms == old(self)@.timestamp_ms,
            match old(self)@.queue.index {
                Some(i) => final(self)@.queue.index matches Some(j) && final(self)@.queue.tracks[j as int].id
                    == old(self)@.queue.tracks[i as int].id,
                None => final(self)@.queue.index is None,
            },
    {
        self.queue.set_shuffle(shuffle);
    }
}

/// Passes on the items of a source, and runs a callback the first time the
/// source runs dry.
pub struct SourceWithFinishCallback<T, F> {
    inner: T,
    callback: Option<F>,
}

impl<T, F: FnOnce()> SourceWithFinishCallback<T, F> {
    /// Wraps `inner`; `callback` runs when it is exhausted.
    pub fn new(inner: T, callback: F) -> (s: SourceWithFinishCallback<T, F>)
        ensures
            s.inner() == inner,
            s.pending() == Some(callback),
    {
        SourceWithFinishCallback { inner, callback: Some(callback) }
    }

    /// The callback, until it has run.
    pub closed spec fn pending(self) -> Option<F> {
        self.callback
    }

    /// The wrapped source.
    pub closed spec fn inner(self) -> T {
        self.inner
    }

    /// The wrapped source, to take its next item from.
    pub fn inner_mut(&mut self) -> (r: &mut T)
        ensures
            *r == old(self).inner(),
            final(self).inner() == *final(r),
            final(self).pending() == old(self).pending(),
    {
        &mut self.inner
    }

    /// Hands on what the inner source produced next. When it produced
    /// nothing, the callback runs, if it has not run before; it never runs
    /// again.
    pub fn observe<I>(&mut self, next: Option<I>) -> (r: (Option<I>, bool))
        requires
            old(self).pending() matches Some(f) ==> f.requires(()),
        ensures
            r.0 == next,
            r.1 == runs_callback(old(self).pending(), next is None),
            final(self).inner() == old(self).inner(),
            final(self).pending() == after_observe(old(self).pending(), next is None),
    {
        let mut ran = false;
        if next.is_none() {
            match self.callback.take() {
                Some(f) => {
                    f();
                    ran = true;
                },
                None => {},
            }
        }
        (next, ran)
    }
}

/// Whether observing the end of the source (`exhausted`) runs the callback.
pub open spec fn runs_callback<F>(pending: Option<F>, exhausted: bool) -> bool {
    exhausted && pending is Some
}

/// The callback still to run after an observation.
pub open spec fn after_observe<F>(pending: Option<F>, exhausted: bool) -> Option<F> {
    if exhausted {
        None
    } else {
        pending
    }
}

/// The callback runs at most once: once an observation has run it, no
/// later observation runs it again.
pub proof fn lemma_callback_runs_once<F>(pending: Option<F>, first: bool, second: bool)
    ensures
        runs_callback(pending, first) ==> !runs_callback(after_observe(pending, first), second),
        runs_callback(pending, first) ==> after_observe(pending, first) is None,
{
}

/// How many times the callback runs over a run of observations, each
/// saying whether the source had run dry (`ends`).
pub open spec fn callback_runs<F>(pending: Option<F>, ends: Seq<bool>) -> nat
    decreases ends.len(),
{
    if ends.len() == 0 {
        0
    } else {
        (if runs_callback(pending, ends[0]) { 1nat } else { 0nat }) + callback_runs(after_observe(pending, ends[0]), ends.drop_first())
    }
}

/// Over any run of observations the callback runs at most once, and it
/// runs exactly once when it was pending and the source runs dry at some
/// point.
pub proof fn lemma_callback_runs_at_most_once<F>(pending: Option<F>, ends: Seq<bool>)
    ensures
        callback_runs(pending, ends) <= 1,
        pending is None ==> callback_runs(pending, ends) == 0,
        pending is Some && ends.contains(true) ==> callback_runs(pending, ends) == 1,
    decreases ends.len(),
{
    if ends.len() > 0 {
        lemma_callback_runs_at_most_once(after_observe(pending, ends[0]), ends.drop_first());
        if ends[0] {
            assert(after_observe(pending, ends[0]) is None);
        } else if ends.contains(true) {
            let k = choose|k: int| 0 <= k < ends.len() && ends[k];
            assert(ends.drop_first()[k - 1]);
        }
    }
}

} // verus!
