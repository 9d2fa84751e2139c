//! The queue of tracks being played: the position in it, looping, and
//! shuffling.
use std::sync::Arc;
use vstd::prelude::*;
use crate::library::Track;

verus! {

/// How playback continues at the ends of the queue.
#[derive(Copy, Clone, Debug, PartialEq, Eq, Hash, Structural)]
pub enum LoopStatus {
    /// Stop after the last track.
    Off,
    /// Repeat the current track.
    Track,
    /// Go back to the first track after the last.
    Playlist,
}

/// Calls `Arc::clone`: another handle to the same track.
#[verifier::external_body]
pub(crate) fn share<T>(a: &Arc<T>) -> (b: Arc<T>)
    ensures
        b == *a,
{
    Arc::clone(a)
}

/// Calls `fastrand::shuffle`, which puts the elements in a random order by
/// swapping them: the result holds the same elements, in some order.
#[verifier::external_body]
fn shuffle_in_place<T>(v: &mut Vec<T>)
    ensures
        final(v)@.len() == old(v)@.len(),
        final(v)@.to_multiset() == old(v)@.to_multiset(),
{
    fastrand::shuffle(v)
}

/// Another handle to each of the tracks, in the same order.
fn share_all(v: &Vec<Arc<Track>>) -> (r: Vec<Arc<Track>>)
    ensures
        r@ == v@,
{
    let mut r: Vec<Arc<Track>> = Vec::new();
    let mut i: usize = 0;
    while i < v.len()
        invariant
            0 <= i <= v.len(),
            r@ == v@.take(i as int),
        decreases v.len() - i,
    {
        r.push(share(&v[i]));
        i = i + 1;
        assert(r@ =~= v@.take(i as int));
    }
    assert(v@.take(v.len() as int) =~= v@);
    r
}

/// The state of a [`PlayQueue`].
pub struct PlayQueueView {
    /// The position of the current track, if any.
    pub index: Option<usize>,
    /// The tracks in playing order.
    pub tracks: Seq<Arc<Track>>,
    pub loop_status: LoopStatus,
    pub shuffled: bool,
    /// The tracks in the order they were added.
    pub original_order: Seq<Arc<Track>>,
}

/// The queue of tracks that are played one after the other.
#[derive(Debug)]
pub struct PlayQueue {
    index: Option<usize>,
    tracks: Vec<Arc<Track>>,
    loop_status: LoopStatus,
    shuffled: bool,
    original_order: Vec<Arc<Track>>,
}

impl View for PlayQueue {
    type V = PlayQueueView;

    closed spec fn view(&self) -> PlayQueueView {
        PlayQueueView {
            index: self.index,
            tracks: self.tracks@,
            loop_status: self.loop_status,
            shuffled: self.shuffled,
            original_order: self.original_order@,
        }
    }
}

/// The position of the track before the current one; `None` when there is
/// none (stopped, or at the start without playlist looping).
pub open spec fn previous_index(q: PlayQueueView) -> Option<usize> {
    match q.index {
        None => None,
        Some(i) => match q.loop_status {
            LoopStatus::Off => if i >= 1 {
                Some((i - 1) as usize)
            } else {
                None
            },
            LoopStatus::Track => Some(i),
            LoopStatus::Playlist => if i >= 1 {
                Some((i - 1) as usize)
            } else {
                Some((q.tracks.len() - 1) as usize)
            },
        },
    }
}

/// The position of the track after the current one; `None` when there is
/// none (stopped, or at the end without looping).
pub open spec fn next_index(q: PlayQueueView) -> Option<usize> {
    match q.index {
        None => None,
        Some(i) => match q.loop_status {
            LoopStatus::Off => if i + 1 < q.tracks.len() {
                Some((i + 1) as usize)
            } else {
                None
            },
            LoopStatus::Track => Some(i),
            LoopStatus::Playlist => Some(((i + 1) % (q.tracks.len() as int)) as usize),
        },
    }
}

/// The first position holding a track with the given id.
pub open spec fn first_with_id(tracks: Seq<Arc<Track>>, id: u64, j: int) -> bool {
    &&& 0 <= j < tracks.len()
    &&& tracks[j].id == id
    &&& forall|k: int| 0 <= k < j ==> (#[trigger] tracks[k]).id != id
}

impl PlayQueue {
    /// The queue is consistent: the current position is in range, the
    /// playing order holds the same tracks as the original order, and is
    /// that order unless shuffled.
    pub closed spec fn wf(self) -> bool {
        &&& self.index matches Some(i) ==> i < self.tracks.len()
        &&& self.tracks@.to_multiset() == self.original_order@.to_multiset()
        &&& !self.shuffled ==> self.tracks@ == self.original_order@
    }

    /// What consistency means for the contents.
    pub proof fn lemma_wf(&self)
        requires
            self.wf(),
        ensures
            self@.index matches Some(i) ==> i < self@.tracks.len(),
            self@.tracks.to_multiset() == self@.original_order.to_multiset(),
            !self@.shuffled ==> self@.tracks == self@.original_order,
    {
    }

    /// A stopped, unshuffled, non-looping queue of the given tracks.
    pub fn new(tracks: Vec<Arc<Track>>) -> (q: PlayQueue)
        ensures
            q.wf(),
            q@.index is None,
            q@.tracks == tracks@,
            q@.original_order == tracks@,
            q@.loop_status == LoopStatus::Off,
            !q@.shuffled,
    {
        let original_order = share_all(&tracks);
        PlayQueue {
            index: None,
            tracks,
            loop_status: LoopStatus::Off,
            shuffled: false,
            original_order,
        }
    }

    /// The tracks, in playing order.
    pub fn tracks(&self) -> (t: &Vec<Arc<Track>>)
        ensures
            t@ == self@.tracks,
    {
        &self.tracks
    }

    pub fn len(&self) -> (n: usize)
        ensures
            n == self@.tracks.len(),
    {
        self.tracks.len()
    }

    pub fn is_empty(&self) -> (b: bool)
        ensures
            b == (self@.tracks.len() == 0),
    {
        self.tracks.len() == 0
    }

    /// The position of the current track, if any.
    pub fn current(&self) -> (i: Option<usize>)
        ensures
            i == self@.index,
    {
        self.index
    }

    /// Sets the position of the current track; `None` stops.
    pub fn set_current(&mut self, current: Option<usize>)
        requires
            old(self).wf(),
            current matches Some(i) ==> i < old(self)@.tracks.len(),
        ensures
            final(self).wf(),
            final(self)@ == (PlayQueueView { index: current, ..old(self)@ }),
    {
        self.index = current;
    }

    pub fn loop_status(&self) -> (s: LoopStatus)
        ensures
            s == self@.loop_status,
    {
        self.loop_status
    }

    pub fn set_loop_status(&mut self, loop_status: LoopStatus)
        requires
            old(self).wf(),
        ensures
            final(self).wf(),
            final(self)@ == (PlayQueueView { loop_status, ..old(self)@ }),
    {
        self.loop_status = loop_status;
    }

    /// Whether the queue is shuffled.
    pub fn shuffle(&self) -> (b: bool)
        ensures
            b == self@.shuffled,
    {
        self.shuffled
    }

    /// The current track, if any.
    pub fn current_track(&self) -> (t: Option<Arc<Track>>)
        requires
            self.wf(),
        ensures
            match self@.index {
                Some(i) => t == Some(self@.tracks[i as int]),
                None => t is None,
            },
    {
        match self.index {
            Some(i) => Some(share(&self.tracks[i])),
            None => None,
        }
    }

    /// Index of the previous track. `None` if this is the first track (and
    /// the queue does not loop) or the queue is stopped.
    pub fn previous(&self) -> (i: Option<usize>)
        requires
            self.wf(),
        ensures
            i == previous_index(self@),
            i matches Some(j) ==> j < self@.tracks.len(),
    {
        match self.index {
            None => None,
            Some(i) => match self.loop_status {
                LoopStatus::Off => if i >= 1 {
                    Some(i - 1)
                } else {
                    None
                },
                LoopStatus::Track => Some(i),
                LoopStatus::Playlist => if i >= 1 {
                    Some(i - 1)
                } else {
                    Some(self.tracks.len() - 1)
                },
            },
        }
    }

    /// Index of the next track. `None` if this would go off the end (and the
    /// queue does not loop) or the queue is stopped.
    pub fn next(&self) -> (i: Option<usize>)
        requires
            self.wf(),
        ensures
            i == next_index(self@),
            i matches Some(j) ==> j < self@.tracks.len(),
    {
        match self.index {
            None => None,
            Some(i) => match self.loop_status {
                LoopStatus::Off => if i + 1 < self.tracks.len() {
                    Some(i + 1)
                } else {
                    None
                },
                LoopStatus::Track => Some(i),
                LoopStatus::Playlist => Some((i + 1) % self.tracks.len()),
            },
        }
    }

    /// Adds a track at the end of the queue (and of the original order).
    pub fn push(&mut self, track: Arc<Track>)
        requires
            old(self).wf(),
        ensures
            final(self).wf(),
            final(self)@ == (PlayQueueView {
                tracks: old(self)@.tracks.push(track),
                original_order: old(self)@.original_order.push(track),
                ..old(self)@
            }),
    {
        broadcast use vstd::seq_lib::group_to_multiset_ensures;

        self.original_order.push(share(&track));
        self.tracks.push(track);
    }

    /// The first position of a track with the given id, which must exist.
    fn position_of_id(&self, id: u64) -> (j: usize)
        requires
            exists|k: int| 0 <= k < self.tracks@.len() && (#[trigger] self.tracks@[k]).id == id,
        ensures
            first_with_id(self.tracks@, id, j as int),
    {
        let mut j: usize = 0;
        while j < self.tracks.len()
            invariant
                0 <= j <= self.tracks.len(),
                forall|k: int| 0 <= k < j ==> (#[trigger] self.tracks@[k]).id != id,
                exists|k: int| 0 <= k < self.tracks@.len() && (#[trigger] self.tracks@[k]).id == id,
            decreases self.tracks.len() - j,
        {
            if self.tracks[j].id == id {
                return j;
            }
            j = j + 1;
        }
        proof {
            let k = choose|k: int| 0 <= k < self.tracks@.len() && (#[trigger] self.tracks@[k]).id == id;
            assert(self.tracks@[k].id != id);
        }
        0
    }

    /// Turns shuffling on or off. Does nothing if it is already so.
    ///
    /// Shuffling puts the tracks in a random order and moves the current
    /// track to the front; unshuffling restores the original order and
    /// points at the current track there. Either way the current track
    /// stays the same (the same id), and a stopped queue stays stopped.
    pub fn set_shuffle(&mut self, shuffle: bool)
        requires
            old(self).wf(),
        ensures
            final(self).wf(),
            final(self)@.shuffled == shuffle,
            final(self)@.loop_status == old(self)@.loop_status,
            final(self)@.original_order == old(self)@.original_order,
            final(self)@.tracks.len() == old(self)@.tracks.len(),
            shuffle == old(self)@.shuffled ==> final(self)@ == old(self)@,
            // unshuffling restores the original order
            !shuffle ==> final(self)@.tracks == old(self)@.original_order,
            // a stopped queue stays stopped
            old(self)@.index is None ==> final(self)@.index is None,
            // the current track is kept, at the front after shuffling, at its
            // first place in the original order after unshuffling
            shuffle != old(self)@.shuffled ==> match old(self)@.index {
                Some(i) => final(self)@.index matches Some(j) && final(self)@.tracks[j as int].id
                    == old(self)@.tracks[i as int].id && (shuffle ==> j == 0) && (!shuffle
                    ==> first_with_id(old(self)@.original_order, old(self)@.tracks[i as int].id, j as int)),
                None => true,
            },
    {
        broadcast use vstd::seq_lib::group_to_multiset_ensures;

        if shuffle == self.shuffled {
            return;
        }
        let current = self.current_track();
        let ghost old_tracks = self.tracks@;
        if shuffle {
            shuffle_in_place(&mut self.tracks);
        } else {
            self.tracks = share_all(&self.original_order);
        }
        self.shuffled = shuffle;
        assert(self.tracks@.to_multiset() == old_tracks.to_multiset());
        assert(self.tracks@.to_multiset().len() == old_tracks.to_multiset().len());
        match current {
            None => {},
            Some(track) => {
                let ghost i = self.index->Some_0 as int;
                proof {
                    assert(old_tracks[i] == track);
                    assert(old_tracks.contains(track));
                    assert(old_tracks.to_multiset().count(track) > 0);
                    assert(self.tracks@.to_multiset().count(track) > 0);
                    assert(self.tracks@.contains(track));
                    let k = choose|k: int| 0 <= k < self.tracks@.len() && self.tracks@[k] == track;
                    assert(self.tracks@[k].id == track.id);
                }
                let new_index = self.position_of_id(track.id);
                if shuffle {
                    let front = share(&self.tracks[0]);
                    let found = share(&self.tracks[new_index]);
                    let ghost before = self.tracks@;
                    self.tracks.set(0, found);
                    self.tracks.set(new_index, front);
                    proof {
                        let mid = before.update(0, before[new_index as int]);
                        assert(self.tracks@ == mid.update(new_index as int, before[0]));
                        assert(mid.to_multiset() == before.to_multiset().insert(
                            before[new_index as int],
                        ).remove(before[0]));
                        assert(self.tracks@.to_multiset() =~= before.to_multiset());
                    }
                    self.index = Some(0);
                } else {
                    self.index = Some(new_index);
                }
            },
        }
    }
}

impl Default for PlayQueue {
    fn default() -> (q: PlayQueue)
        ensures
            q.wf(),
            q@.index is None,
            q@.tracks.len() == 0,
            q@.original_order.len() == 0,
            q@.loop_status == LoopStatus::Off,
            !q@.shuffled,
    {
        PlayQueue::new(Vec::new())
    }
}

/// With track looping, the previous and next tracks are the current one.
pub proof fn lemma_track_looping_repeats(q: PlayQueueView)
    requires
        q.loop_status == LoopStatus::Track,
    ensures
        previous_index(q) == q.index,
        next_index(q) == q.index,
{
}

/// With playlist looping, a playing queue always has a next and a previous
/// track, and going forward from the last track leads to the first.
pub proof fn lemma_playlist_looping_wraps(q: PlayQueueView)
    requires
        q.loop_status == LoopStatus::Playlist,
        q.index matches Some(i) && i < q.tracks.len(),
        q.tracks.len() <= usize::MAX,
    ensures
        next_index(q) is Some,
        previous_index(q) is Some,
        q.index == Some((q.tracks.len() - 1) as usize) ==> next_index(q) == Some(0usize),
        q.index == Some(0usize) ==> previous_index(q) == Some((q.tracks.len() - 1) as usize),
{
    let n = q.tracks.len() as int;
    assert(n % n == 0) by (nonlinear_arith)
        requires
            n > 0,
    ;
}

/// Without looping, stepping forward and then back returns to the same
/// track, and so does stepping back and then forward.
pub proof fn lemma_next_previous_inverse(q: PlayQueueView)
    requires
        q.loop_status == LoopStatus::Off,
        q.index matches Some(i) && i < q.tracks.len(),
        q.tracks.len() <= usize::MAX,
    ensures
        next_index(q) matches Some(j) ==> previous_index(PlayQueueView { index: Some(j), ..q })
            == q.index,
        previous_index(q) matches Some(j) ==> next_index(PlayQueueView { index: Some(j), ..q })
            == q.index,
{
}

} // verus!
