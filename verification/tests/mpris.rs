use std::sync::Arc;

use deimos::app::Command;
use deimos::library::{AlbumName, ArtistName, Track};
use deimos::mpris::{metadata, playback_status, position_us, seek_command, set_position_command, PlaybackStatus};
use deimos::player::Player;

#[test]
fn status_follows_the_player() {
    let mut player = Player::new();
    assert_eq!(playback_status(&player), PlaybackStatus::Stopped);
    player.set_play_queue(vec![Arc::new(Track::test_track(1))]);
    player.play();
    assert_eq!(playback_status(&player), PlaybackStatus::Paused);
    player.set_paused(false);
    assert_eq!(playback_status(&player), PlaybackStatus::Playing);
    assert_eq!(position_us(&player), None);
    player.set_timestamp(Some(1500));
    assert_eq!(position_us(&player), Some(1_500_000));
}

#[test]
fn metadata_of_a_track() {
    let m = metadata(&Track::test_track(4));
    assert_eq!(m.track_id, "/4");
    assert_eq!(m.title.as_deref(), Some("Test track 4"));
    assert_eq!(m.artists, vec!["Test artist".to_owned()]);
    assert_eq!(m.album.as_deref(), Some("Test album"));
    assert_eq!(m.track_number, Some(4));
    assert_eq!(m.length_us, 200_000_000);
    let anonymous = Track {
        id: 0,
        number: None,
        path: "/a".to_owned(),
        title: None,
        album: AlbumName(None),
        artist: ArtistName::Unknown,
        length: 0,
    };
    let m = metadata(&anonymous);
    assert!(m.artists.is_empty());
    assert_eq!(m.track_number, None);
}

#[test]
fn requests_become_commands() {
    assert!(matches!(seek_command(-3), Command::Seek(-3)));
    match set_position_command("/7".to_owned(), 2_500_000) {
        Command::SetPositionIfTrack { position_ms, mpris_id } => {
            assert_eq!(position_ms, 2500);
            assert_eq!(mpris_id, "/7");
        }
        other => panic!("unexpected {other:?}"),
    }
}
