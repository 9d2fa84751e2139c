use std::sync::Arc;

use deimos::library::Track;
use deimos::play_queue::{LoopStatus, PlayQueue};

fn sample_queue() -> PlayQueue {
    PlayQueue::new(vec![
        Arc::new(Track::test_track(0)),
        Arc::new(Track::test_track(1)),
        Arc::new(Track::test_track(2)),
    ])
}

#[test]
fn test_next() {
    let mut queue = sample_queue();
    queue.set_current(None);
    assert_eq!(queue.next(), None, "next() on a stopped queue should return None");
    queue.set_current(Some(1));
    assert_eq!(queue.next(), Some(2));
    queue.set_current(Some(2));
    assert_eq!(queue.next(), None, "next() on the last track should return None");
}

#[test]
fn test_previous() {
    let mut queue = sample_queue();
    queue.set_current(None);
    assert_eq!(queue.previous(), None, "previous() on a stopped queue should return None");
    queue.set_current(Some(1));
    assert_eq!(queue.previous(), Some(0));
    queue.set_current(Some(2));
    assert_eq!(queue.previous(), Some(1));
}

#[test]
fn track_looping() {
    let mut queue = sample_queue();
    queue.set_current(Some(0));
    queue.set_loop_status(LoopStatus::Track);
    assert_eq!(
        queue.previous(),
        queue.current(),
        "previous track should be the same with track looping"
    );
    assert_eq!(queue.next(), queue.current(), "next track should be the same with track looping");
}

// Longer queue used for shuffle-related tests.
fn shuffle_test_queue() -> PlayQueue {
    let mut queue = PlayQueue::default();
    for i in 0..50 {
        queue.push(Arc::new(Track::test_track(i)));
    }
    queue
}

#[test]
fn first_after_shuffle() {
    for _ in 0..10 {
        let mut queue = shuffle_test_queue();
        queue.set_current(Some(20));
        let track = queue.current_track();
        queue.set_shuffle(true);
        assert_eq!(queue.current_track(), track, "shuffling the queue should leave the track the same");
        assert_eq!(queue.current(), Some(0), "shuffling the queue should move the current track to the front");
    }
}

#[test]
fn shuffle_unshuffle() {
    for _ in 0..10 {
        let mut queue = shuffle_test_queue();
        let original = queue.tracks().clone();
        queue.set_shuffle(true);
        queue.set_shuffle(false);
        assert_eq!(queue.tracks(), &original);
    }
}

#[test]
fn order_after_unshuffle() {
    for _ in 0..10 {
        let mut queue = shuffle_test_queue();
        queue.set_shuffle(true);
        queue.set_current(Some(20));
        let track = queue.current_track();
        queue.set_shuffle(false);
        assert_eq!(queue.current_track(), track, "unshuffling the queue should leave the track the same");
    }
}

#[test]
fn playlist_looping_wraps_around() {
    let mut queue = sample_queue();
    queue.set_loop_status(LoopStatus::Playlist);
    queue.set_current(Some(2));
    assert_eq!(queue.next(), Some(0));
    queue.set_current(Some(0));
    assert_eq!(queue.previous(), Some(2));
    queue.set_current(Some(1));
    assert_eq!(queue.next(), Some(2));
    assert_eq!(queue.previous(), Some(0));
}

#[test]
fn next_then_previous_returns_without_looping() {
    let mut queue = sample_queue();
    queue.set_current(Some(1));
    let next = queue.next();
    queue.set_current(next);
    assert_eq!(queue.previous(), Some(1));
}

#[test]
fn shuffle_keeps_the_same_tracks() {
    let mut queue = shuffle_test_queue();
    queue.set_shuffle(true);
    assert!(queue.shuffle());
    let mut ids: Vec<u64> = queue.tracks().iter().map(|t| t.id).collect();
    ids.sort();
    assert_eq!(ids, (0..50).collect::<Vec<u64>>());
    assert_eq!(queue.current(), None, "a stopped queue stays stopped");
}

#[test]
fn push_appends_and_default_is_empty() {
    let mut queue = PlayQueue::default();
    assert!(queue.is_empty());
    assert_eq!(queue.loop_status(), LoopStatus::Off);
    queue.push(Arc::new(Track::test_track(7)));
    assert_eq!(queue.len(), 1);
    assert_eq!(queue.current_track(), None);
    queue.set_current(Some(0));
    assert_eq!(queue.current_track().map(|t| t.id), Some(7));
}
