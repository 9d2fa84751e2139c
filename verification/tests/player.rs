use std::cell::Cell;
use std::sync::Arc;

use deimos::library::Track;
use deimos::play_queue::LoopStatus;
use deimos::player::{Player, PlayerAction, SourceWithFinishCallback};

fn tracks(n: u64) -> Vec<Arc<Track>> {
    (0..n).map(|i| Arc::new(Track::test_track(i))).collect()
}

#[test]
fn new_player_is_paused_and_empty() {
    let player = Player::new();
    assert!(player.paused());
    assert!(player.stopped());
    assert!(!player.playing());
    assert_eq!(player.current(), None);
    assert_eq!(player.timestamp(), None);
}

#[test]
fn play_selects_first_track_then_resumes() {
    let mut player = Player::new();
    assert!(matches!(player.set_play_queue(tracks(3)), PlayerAction::Stop));
    match player.play() {
        PlayerAction::Load(t) => assert_eq!(t.id, 0),
        other => panic!("unexpected {other:?}"),
    }
    assert!(player.paused(), "the caller unpauses once the track is loaded");
    assert!(matches!(player.play(), PlayerAction::Keep));
    assert!(!player.paused());
    assert!(player.playing());
    player.pause();
    assert!(player.paused());
}

#[test]
fn next_and_previous_move_through_the_queue() {
    let mut player = Player::new();
    player.set_play_queue(tracks(2));
    player.set_queue_index(Some(0));
    match player.next() {
        PlayerAction::Load(t) => assert_eq!(t.id, 1),
        other => panic!("unexpected {other:?}"),
    }
    assert!(matches!(player.next(), PlayerAction::Stop));
    assert!(player.stopped());
    player.set_queue_index(Some(1));
    match player.previous() {
        PlayerAction::Load(t) => assert_eq!(t.id, 0),
        other => panic!("unexpected {other:?}"),
    }
    player.set_loop_status(LoopStatus::Playlist);
    match player.previous() {
        PlayerAction::Load(t) => assert_eq!(t.id, 1),
        other => panic!("unexpected {other:?}"),
    }
}

#[test]
fn settings_survive_a_new_queue() {
    let mut player = Player::new();
    player.set_loop_status(LoopStatus::Track);
    player.set_timestamp(Some(1234));
    player.queue_push(Arc::new(Track::test_track(9)));
    player.set_play_queue(tracks(4));
    assert_eq!(player.queue().loop_status(), LoopStatus::Track);
    assert_eq!(player.queue().len(), 4);
    assert_eq!(player.timestamp(), Some(1234));
    assert!(matches!(player.stop(), PlayerAction::Stop));
}

#[test]
fn finish_callback_runs_once() {
    let count = Cell::new(0);
    let mut source = SourceWithFinishCallback::new(vec![1, 2], || count.set(count.get() + 1));
    let first = source.inner_mut().pop();
    assert_eq!(source.observe(first), (Some(2), false));
    let second = source.inner_mut().pop();
    assert_eq!(source.observe(second), (Some(1), false));
    let third = source.inner_mut().pop();
    assert_eq!(source.observe(third), (None, true));
    let fourth = source.inner_mut().pop();
    assert_eq!(source.observe(fourth), (None, false));
    assert_eq!(count.get(), 1);
}
