use deimos::config::{config_dir, config_path, default_playlist_song, Config, Format, RawConfig, RawFormat};
use deimos::events;
use deimos::events::{arrow_key, Arrow};

fn keys() -> Vec<(String, String)> {
    vec![
        ("artist".to_owned(), "Some Artist".to_owned()),
        ("album".to_owned(), "Their Worst Album".to_owned()),
        ("title".to_owned(), "The One Good Song".to_owned()),
    ]
}

#[test]
fn default_config_is_valid() {
    let config = Config::from_raw(RawConfig::default()).unwrap();
    assert_eq!(default_playlist_song(), "$title - $artist - $album");
    let text: String = config.format.playlist_song.spans(&keys()).into_iter().map(|(t, _)| t).collect();
    assert_eq!(text, "The One Good Song - Some Artist - Their Worst Album");
    assert_eq!(
        config.format.now_playing.ansi(&keys()),
        "The One Good Song\x1b[m - \x1b[mSome Artist\x1b[m - \x1b[mTheir Worst Album\x1b[m"
    );
}

#[test]
fn now_playing_defaults_to_the_song_format() {
    let raw = RawConfig {
        format: RawFormat { playlist_song: "np: $title by $artist from $album".to_owned(), now_playing: None },
    };
    let config = Config::from_raw(raw).unwrap();
    assert_eq!(config.format.now_playing.ansi(&keys()), config.format.playlist_song.ansi(&keys()));
}

#[test]
fn now_playing_can_be_overridden() {
    let raw = RawConfig {
        format: RawFormat {
            playlist_song: "np: $title by $artist from $album".to_owned(),
            now_playing: Some("$album - $artist - $title".to_owned()),
        },
    };
    let config = Config::from_raw(raw).unwrap();
    assert_ne!(config.format.now_playing.ansi(&keys()), config.format.playlist_song.ansi(&keys()));
}

#[test]
fn bad_format_is_an_error() {
    let raw = RawConfig { format: RawFormat { playlist_song: "$title}".to_owned(), now_playing: None } };
    let err = Config::from_raw(raw).unwrap_err();
    assert_eq!(err.0.position, 6);
    let raw = RawConfig { format: RawFormat { playlist_song: "$title".to_owned(), now_playing: Some("%[nope]{x}".to_owned()) } };
    assert!(Config::from_raw(raw).is_err());
}

#[test]
fn paths() {
    assert_eq!(config_dir(Some("/home/me/.config".to_owned()), false), Some("/home/me/.config/deimos".to_owned()));
    assert_eq!(config_dir(Some("/Prefs/".to_owned()), true), Some("/Prefs/zone.synthetic.deimos".to_owned()));
    assert_eq!(config_dir(None, false), None);
    assert_eq!(config_path(Some("/c/deimos".to_owned())), Some("/c/deimos/config.toml".to_owned()));
    assert_eq!(config_path(None), None);
    assert_eq!(events::Config::default().tick_duration_ms, 500);
}

#[test]
fn arrow_sequences() {
    assert_eq!(arrow_key(b"\x1bOA"), Some(Arrow::Up));
    assert_eq!(arrow_key(b"\x1bOB"), Some(Arrow::Down));
    assert_eq!(arrow_key(b"\x1bOC"), Some(Arrow::Right));
    assert_eq!(arrow_key(b"\x1bOD"), Some(Arrow::Left));
    assert_eq!(arrow_key(b"\x1bOE"), None);
    assert_eq!(arrow_key(b"\x1bO"), None);
    assert_eq!(arrow_key(b"x"), None);
}

// An empty file: every field takes its default.
#[test]
fn empty_config_is_valid() {
    Config::from_raw(RawConfig::default()).unwrap();
}

// A `[format]` table with no keys in it.
#[test]
fn empty_tables_are_valid() {
    Config::from_raw(RawConfig { format: RawFormat::default() }).unwrap();
    let format = Format::from_raw(RawFormat { playlist_song: default_playlist_song(), now_playing: None }).unwrap();
    assert_eq!(format.now_playing.ansi(&keys()), format.playlist_song.ansi(&keys()));
}
