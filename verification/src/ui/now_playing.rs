//! The text of the now-playing display: the track, and how far into it
//! playback is.
use std::sync::Arc;
use vstd::prelude::*;
use crate::library::{Track, display_name};
use crate::mimi::text::{push_char, push_str};
use crate::order::option_chars;
use crate::text::decimal_string;
use crate::widgets::two_digits;

verus! {

/// What is playing and how far into it playback is (in milliseconds).
#[derive(Debug)]
pub struct NowPlaying {
    pub timestamp_ms: Option<u64>,
    pub track: Option<Arc<Track>>,
}

/// Minutes and seconds, each at least two digits, with a colon between.
pub open spec fn clock(minutes: nat, seconds: nat) -> Seq<char> {
    two_digits(minutes) + seq![':'] + two_digits(seconds)
}

/// The text shown: artist, album and title on their own lines, then the
/// elapsed time and the length (whole minutes, and the remaining seconds
/// rounded up).
pub open spec fn now_playing_text(track: Track, timestamp_ms: u64) -> Seq<char> {
    let secs = timestamp_ms / 1000;
    let total_ms = track.length;
    display_name(track.artist@) + seq!['\n'] + display_name(track.album@) + seq!['\n']
        + display_name(option_chars(track.title)) + seq!['\n']
        + clock((secs / 60) as nat, (secs % 60) as nat) + " / "@
        + clock((total_ms / 60000) as nat, ((total_ms % 60000 + 999) / 1000) as nat)
}

fn two_digit_string(n: u64) -> (s: String)
    ensures
        s@ == two_digits(n as nat),
{
    let mut s = String::new();
    if n < 10 {
        push_char(&mut s, '0');
    }
    let digits = decimal_string(n);
    push_str(&mut s, &digits);
    s
}

fn clock_string(minutes: u64, seconds: u64) -> (s: String)
    ensures
        s@ == clock(minutes as nat, seconds as nat),
{
    let mut s = two_digit_string(minutes);
    push_char(&mut s, ':');
    push_str(&mut s, &two_digit_string(seconds));
    s
}

impl NowPlaying {
    /// The text to show, when there is a track and a timestamp.
    pub fn text(&self) -> (t: Option<String>)
        ensures
            match (self.timestamp_ms, self.track) {
                (Some(ms), Some(track)) => t matches Some(s) && s@ == now_playing_text(*track, ms),
                _ => t is None,
            },
    {
        let (ms, track) = match (&self.timestamp_ms, &self.track) {
            (Some(ms), Some(track)) => (*ms, track),
            _ => {
                return None;
            },
        };
        let mut s = track.artist.display();
        push_char(&mut s, '\n');
        push_str(&mut s, &track.album.display());
        push_char(&mut s, '\n');
        let title = match &track.title {
            Some(t) => t.clone(),
            None => crate::ui::now_playing::unknown(),
        };
        push_str(&mut s, &title);
        push_char(&mut s, '\n');
        let secs = ms / 1000;
        push_str(&mut s, &clock_string(secs / 60, secs % 60));
        push_str(&mut s, &crate::text::owned(" / "));
        let total = track.length;
        push_str(&mut s, &clock_string(total / 60000, (total % 60000 + 999) / 1000));
        Some(s)
    }
}

fn unknown() -> (s: String)
    ensures
        s@ == display_name(None),
{
    crate::library::AlbumName(None).display()
}

} // verus!
