use deimos::app::{App, Command, Effect, Key, Message, Motion, Panel, PlayerMessage};
use deimos::library::{AlbumName, ArtistName, Library, Track};
use deimos::library_panel::PanelItem;
use deimos::play_queue::LoopStatus;
use deimos::player::PlayerAction;

fn track(id: u64, album: &str, artist: &str) -> Track {
    Track {
        id,
        number: Some(id as u32),
        path: format!("/{id}.mp3"),
        title: Some(format!("Song {id}")),
        album: AlbumName(Some(album.to_owned())),
        artist: ArtistName::Artist(artist.to_owned()),
        length: 1000,
    }
}

fn app() -> App {
    App::new(Library::from_tracks(vec![track(0, "A", "X"), track(1, "A", "X"), track(2, "B", "Y")]))
}

#[test]
fn keys_map_to_commands() {
    let mut app = app();
    assert!(matches!(app.key_to_command(Key::Char('/')), Some(Command::StartSearch)));
    assert!(matches!(app.key_to_command(Key::Char('q')), Some(Command::Quit)));
    assert!(matches!(app.key_to_command(Key::Char(',')), Some(Command::Seek(-5))));
    assert!(matches!(app.key_to_command(Key::Char('.')), Some(Command::Seek(5))));
    assert!(matches!(app.key_to_command(Key::Up), Some(Command::MoveCursor(Motion::Up))));
    assert!(app.key_to_command(Key::Char('k')).is_none());
    app.dispatch_command(Command::StartSearch).unwrap();
    assert_eq!(app.active_panel, Panel::Search);
    assert!(matches!(app.key_to_command(Key::Char('q')), Some(Command::SearchInput('q'))));
    assert!(matches!(app.key_to_command(Key::Esc), Some(Command::Cancel)));
    app.dispatch_command(Command::Cancel).unwrap();
    assert_eq!(app.active_panel, Panel::Library);
}

#[test]
fn typing_runs_the_search() {
    let mut app = app();
    app.dispatch_command(Command::StartSearch).unwrap();
    app.dispatch_command(Command::SearchInput('S')).unwrap();
    app.dispatch_command(Command::SearchInput('o')).unwrap();
    assert_eq!(app.search.query(), "So");
    assert_eq!(app.search.results().len(), 3);
    app.dispatch_command(Command::SearchBackspace).unwrap();
    assert_eq!(app.search.query(), "S");
    app.dispatch_command(Command::SearchBackspace).unwrap();
    app.dispatch_command(Command::SearchBackspace).unwrap();
    assert_eq!(app.search.query(), "");
}

#[test]
fn activating_a_track_plays_the_list_from_it() {
    let mut app = app();
    app.dispatch_command(Command::MoveCursor(Motion::Down)).unwrap();
    app.dispatch_command(Command::NextFocus).unwrap();
    assert_eq!(app.library_panel.focus, PanelItem::TrackList);
    app.dispatch_command(Command::MoveCursor(Motion::Down)).unwrap();
    app.dispatch_command(Command::MoveCursor(Motion::Down)).unwrap();
    match app.dispatch_command(Command::Activate).unwrap() {
        Effect::Audio { actions, resume, reset_visualizer } => {
            assert!(resume && reset_visualizer);
            assert!(matches!(actions[0], PlayerAction::Stop));
            match &actions[1] {
                PlayerAction::Load(t) => assert_eq!(t.id, 1),
                other => panic!("unexpected {other:?}"),
            }
        }
        other => panic!("unexpected {other:?}"),
    }
    app.resume();
    assert!(app.player.playing());
    assert!(matches!(app.dispatch_command(Command::PlayPause).unwrap(), Effect::Nothing));
    assert!(app.player.paused());
    app.on_progress(7000);
    match app.dispatch_command(Command::PreviousOrSeekToStart).unwrap() {
        Effect::Seek { target_ms, next_on_failure } => {
            assert_eq!(target_ms, 0);
            assert!(!next_on_failure);
        }
        other => panic!("unexpected {other:?}"),
    }
    match app.dispatch_command(Command::Seek(-5)).unwrap() {
        Effect::Seek { target_ms, next_on_failure } => {
            assert_eq!(target_ms, 2000);
            assert!(next_on_failure);
        }
        other => panic!("unexpected {other:?}"),
    }
    match app.dispatch_command(Command::Seek(-50)).unwrap() {
        Effect::Seek { target_ms, .. } => assert_eq!(target_ms, 0),
        other => panic!("unexpected {other:?}"),
    }
    match app.dispatch_command(Command::NextTrack).unwrap() {
        Effect::Audio { actions, .. } => assert!(matches!(actions[0], PlayerAction::Stop)),
        other => panic!("unexpected {other:?}"),
    }
    assert!(app.player.stopped());
}

#[test]
fn set_position_only_for_the_current_track() {
    let mut app = app();
    app.dispatch_command(Command::MoveCursor(Motion::Down)).unwrap();
    app.dispatch_command(Command::NextFocus).unwrap();
    app.dispatch_command(Command::MoveCursor(Motion::Down)).unwrap();
    app.dispatch_command(Command::AddSongToQueue).unwrap();
    assert_eq!(app.player.queue().len(), 1);
    app.dispatch_command(Command::Play).unwrap();
    let other = Command::SetPositionIfTrack { position_ms: 10, mpris_id: "/9".to_owned() };
    assert!(matches!(app.dispatch_command(other).unwrap(), Effect::Nothing));
    let this = Command::SetPositionIfTrack { position_ms: 10, mpris_id: "/0".to_owned() };
    assert!(matches!(app.dispatch_command(this).unwrap(), Effect::Seek { target_ms: 10, .. }));
    app.dispatch_command(Command::SetLoopStatus(LoopStatus::Track)).unwrap();
    assert_eq!(app.player.queue().loop_status(), LoopStatus::Track);
    match app.seek_failed() {
        PlayerAction::Load(t) => assert_eq!(t.id, 0),
        other => panic!("unexpected {other:?}"),
    }
    app.dispatch_command(Command::Quit).unwrap();
    assert!(app.should_quit);
}

#[test]
fn activating_a_search_result_shows_it() {
    let mut app = app();
    app.dispatch_command(Command::StartSearch).unwrap();
    app.dispatch_command(Command::SearchInput('Y')).unwrap();
    assert!(matches!(app.dispatch_command(Command::Activate).unwrap(), Effect::Nothing));
    assert_eq!(app.active_panel, Panel::Library);
    assert_eq!(app.library_panel.artist_album_list.artist(), Some(ArtistName::Artist("Y".to_owned())));
}

#[test]
fn messages_from_the_player() {
    let mut app = app();
    assert!(Message::Player(PlayerMessage::AudioFragment { timestamp_ms: 5 }).audio_only());
    assert!(!Message::Player(PlayerMessage::Finished).audio_only());
    assert!(!Message::Command(Command::Quit).audio_only());
    let (r, changed) = app.dispatch(Message::Player(PlayerMessage::AudioFragment { timestamp_ms: 1200 }));
    assert!(matches!(r, Ok(Effect::Nothing)));
    assert!(!changed);
    assert_eq!(app.player.timestamp(), Some(1200));
    app.dispatch(Message::Command(Command::MoveCursor(Motion::Down)));
    app.dispatch(Message::Command(Command::NextFocus));
    app.dispatch(Message::Command(Command::MoveCursor(Motion::Down)));
    let (_, changed) = app.dispatch(Message::Command(Command::Activate));
    assert!(changed, "playing a track changes the current track");
    let (r, changed) = app.dispatch(Message::Player(PlayerMessage::Finished));
    assert!(changed);
    match r {
        Ok(Effect::Audio { actions, .. }) => match &actions[0] {
            PlayerAction::Load(t) => assert_eq!(t.id, 1),
            other => panic!("unexpected {other:?}"),
        },
        other => panic!("unexpected {other:?}"),
    }
}
