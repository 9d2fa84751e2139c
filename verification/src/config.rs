//! The configuration: how songs are formatted, and where the configuration
//! file lives. Reading the TOML text into a [`RawConfig`] is done by the
//! caller; everything after that is here.
use vstd::prelude::*;
use crate::mimi::format::{Formatter, ParseFormatterError};
use crate::mimi::parse::spec_parse;
use crate::text::owned;
use crate::mimi::text::push_str;

verus! {

/// The `[format]` table as written in the file, with the defaults filled
/// in.
#[derive(Debug, Clone)]
pub struct RawFormat {
    /// `playlist-song`.
    pub playlist_song: String,
    /// `now-playing`, if given.
    pub now_playing: Option<String>,
}

/// The configuration file as written, with the defaults filled in.
#[derive(Debug, Clone)]
pub struct RawConfig {
    pub format: RawFormat,
}

/// The default song format: `$title - $artist - $album`.
pub open spec fn default_playlist_song_text() -> Seq<char> {
    "$title - $artist - $album"@
}

/// The default song format.
pub fn default_playlist_song() -> (s: String)
    ensures
        s@ == default_playlist_song_text(),
{
    owned("$title - $artist - $album")
}

impl Default for RawFormat {
    /// What an empty `[format]` table means: the default song format, and
    /// the now-playing format taken from it.
    fn default() -> (f: RawFormat)
        ensures
            f.playlist_song@ == default_playlist_song_text(),
            f.now_playing is None,
    {
        RawFormat { playlist_song: default_playlist_song(), now_playing: None }
    }
}

impl Default for RawConfig {
    /// What an empty file means.
    fn default() -> (c: RawConfig)
        ensures
            c.format.playlist_song@ == default_playlist_song_text(),
            c.format.now_playing is None,
    {
        RawConfig { format: RawFormat::default() }
    }
}

/// Configuration data related to formatting.
#[derive(Debug)]
pub struct Format {
    /// Formats the display of songs in playlists and the current queue.
    pub playlist_song: Formatter,
    /// Formats the "now playing" display at the bottom of the screen.
    pub now_playing: Formatter,
}

/// The parsed configuration.
#[derive(Debug)]
pub struct Config {
    /// Formatting information.
    pub format: Format,
}

/// The text of the now-playing format: its own, or the song format's.
pub open spec fn now_playing_text(raw: RawFormat) -> Seq<char> {
    match raw.now_playing {
        Some(s) => s@,
        None => raw.playlist_song@,
    }
}

/// `r` is the result of building the formats of `raw`: both parse, or the
/// error of the first that doesn't (the song format is parsed first).
pub open spec fn format_built(raw: RawFormat, r: Result<Format, ParseFormatterError>) -> bool {
    match spec_parse(raw.playlist_song@) {
        Err(e) => r matches Err(err) && err.0.position == e,
        Ok(song) => match spec_parse(now_playing_text(raw)) {
            Err(e) => r matches Err(err) && err.0.position == e,
            Ok(np) => r matches Ok(f) && f.playlist_song.tree() == song && f.now_playing.tree() == np,
        },
    }
}

impl Format {
    /// Parses both formats; the now-playing format defaults to the song
    /// format.
    pub fn from_raw(raw: RawFormat) -> (r: Result<Format, ParseFormatterError>)
        ensures
            format_built(raw, r),
    {
        let playlist_song = match Formatter::new(raw.playlist_song.as_str()) {
            Ok(f) => f,
            Err(e) => {
                return Err(e);
            },
        };
        let now_playing_source = match &raw.now_playing {
            Some(s) => s.clone(),
            None => raw.playlist_song.clone(),
        };
        let now_playing = match Formatter::new(now_playing_source.as_str()) {
            Ok(f) => f,
            Err(e) => {
                return Err(e);
            },
        };
        Ok(Format { playlist_song, now_playing })
    }
}

impl Config {
    /// Builds the configuration from the file's contents.
    pub fn from_raw(raw: RawConfig) -> (r: Result<Config, ParseFormatterError>)
        ensures
            match r {
                Ok(c) => format_built(raw.format, Ok(c.format)),
                Err(e) => format_built(raw.format, Err(e)),
            },
    {
        match Format::from_raw(raw.format) {
            Ok(format) => Ok(Config { format }),
            Err(e) => Err(e),
        }
    }
}

/// `name` appended to the path `dir` as one more component: with a `/` in
/// between unless `dir` is empty or already ends with one.
pub open spec fn joined(dir: Seq<char>, name: Seq<char>) -> Seq<char> {
    if dir.len() == 0 {
        name
    } else if dir.last() == '/' {
        dir + name
    } else {
        dir + seq!['/'] + name
    }
}

/// The name of the directory under the platform's configuration directory.
pub open spec fn app_dir_name(macos: bool) -> Seq<char> {
    if macos {
        "zone.synthetic.deimos"@
    } else {
        "deimos"@
    }
}

fn join(dir: &String, name: &str) -> (p: String)
    ensures
        p@ == joined(dir@, name@),
{
    let chars = crate::mimi::text::str_chars(dir.as_str());
    let mut p = dir.clone();
    if chars.len() > 0 && chars[chars.len() - 1] != '/' {
        crate::mimi::text::push_char(&mut p, '/');
    }
    push_str(&mut p, &owned(name));
    p
}

/// The directory the configuration is stored in, under the platform's
/// configuration directory `base` (`None` if the platform has none).
pub fn config_dir(base: Option<String>, macos: bool) -> (d: Option<String>)
    ensures
        match base {
            Some(b) => d matches Some(s) && s@ == joined(b@, app_dir_name(macos)),
            None => d is None,
        },
{
    match base {
        Some(b) => {
            let name = if macos {
                "zone.synthetic.deimos"
            } else {
                "deimos"
            };
            Some(join(&b, name))
        },
        None => None,
    }
}

/// The file the configuration is loaded from, in the configuration
/// directory `dir`.
pub fn config_path(dir: Option<String>) -> (p: Option<String>)
    ensures
        match dir {
            Some(d) => p matches Some(s) && s@ == joined(d@, "config.toml"@),
            None => p is None,
        },
{
    match dir {
        Some(d) => Some(join(&d, "config.toml")),
        None => None,
    }
}

} // verus!
