use deimos::library::Track;
use deimos::play_state::{PlayQueue, PlayState};

#[test]
fn current_track_follows_the_position() {
    let mut queue = PlayQueue::new(vec![Track::test_track(0), Track::test_track(1)]);
    assert!(queue.current_track().is_none());
    queue.set_current(Some(PlayState { timestamp_ms: 10, track_index: 1 }));
    assert_eq!(queue.current_track().map(|t| t.id), Some(1));
    assert_eq!(queue.current(), Some(&PlayState { timestamp_ms: 10, track_index: 1 }));
    queue.next_track();
    assert!(queue.current().is_none(), "advancing past the last track stops");
    queue.set_current(Some(PlayState { timestamp_ms: 0, track_index: 0 }));
    queue.stop();
    assert!(queue.current_track().is_none());
}

#[test]
fn next_track_on_empty_queue_does_nothing() {
    let mut queue = PlayQueue::new(vec![]);
    queue.next_track();
    assert!(queue.current().is_none());
    assert!(queue.tracks.is_empty());
}

#[test]
fn next_track_starts_at_the_first_and_moves_on() {
    let mut queue = PlayQueue::new(vec![Track::test_track(0), Track::test_track(1), Track::test_track(2)]);
    queue.next_track();
    assert_eq!(queue.current(), Some(&PlayState { timestamp_ms: 0, track_index: 0 }));
    queue.set_current(Some(PlayState { timestamp_ms: 500, track_index: 0 }));
    queue.next_track();
    assert_eq!(queue.current(), Some(&PlayState { timestamp_ms: 0, track_index: 1 }));
    queue.next_track();
    assert_eq!(queue.current_track().map(|t| t.id), Some(2));
    queue.next_track();
    assert!(queue.current().is_none());
}
