use std::sync::Arc;

use deimos::library::Track;
use deimos::ui::now_playing::NowPlaying;

#[test]
fn text_shows_track_and_times() {
    let mut track = Track::test_track(3);
    track.length = 185_400;
    let np = NowPlaying { timestamp_ms: Some(65_900), track: Some(Arc::new(track)) };
    assert_eq!(np.text().unwrap(), "Test artist\nTest album\nTest track 3\n01:05 / 03:06");
}

#[test]
fn nothing_without_a_track_or_time() {
    assert!(NowPlaying { timestamp_ms: None, track: Some(Arc::new(Track::test_track(0))) }.text().is_none());
    assert!(NowPlaying { timestamp_ms: Some(0), track: None }.text().is_none());
    let mut long = Track::test_track(0);
    long.length = 60 * 60 * 1000 * 2;
    let np = NowPlaying { timestamp_ms: Some(0), track: Some(Arc::new(long)) };
    assert!(np.text().unwrap().ends_with("00:00 / 120:00"));
}
