//! What the media-player (MPRIS) interface reports and asks for: the
//! playback status, the current track's metadata, and the commands its
//! requests become.
use vstd::prelude::*;
use crate::app::Command;
use crate::library::{ArtistName, Track, mpris_path};
use crate::player::{Player, PlayerView};

verus! {

/// Whether something is playing, paused, or nothing is current.
#[derive(Debug, Clone, Copy, PartialEq, Eq, Structural)]
pub enum PlaybackStatus {
    Playing,
    Paused,
    Stopped,
}

/// The status reported for a player: stopped without a current track,
/// otherwise playing unless paused.
pub open spec fn status_of(p: PlayerView) -> PlaybackStatus {
    if p.queue.index is None {
        PlaybackStatus::Stopped
    } else if !p.paused {
        PlaybackStatus::Playing
    } else {
        PlaybackStatus::Paused
    }
}

/// The playback status of `player`.
pub fn playback_status(player: &Player) -> (s: PlaybackStatus)
    ensures
        s == status_of(player@),
{
    if player.stopped() {
        PlaybackStatus::Stopped
    } else if player.playing() {
        PlaybackStatus::Playing
    } else {
        PlaybackStatus::Paused
    }
}

/// The position in the current track in microseconds, if there is one.
pub fn position_us(player: &Player) -> (p: Option<u64>)
    ensures
        match player@.timestamp_ms {
            Some(ms) => ms <= u64::MAX / 1000 ==> p == Some((ms * 1000) as u64),
            None => p is None,
        },
        player@.timestamp_ms matches Some(ms) && ms > u64::MAX / 1000 ==> p == Some(u64::MAX),
{
    match player.timestamp() {
        Some(ms) => Some(if ms <= u64::MAX / 1000 {
            ms * 1000
        } else {
            u64::MAX
        }),
        None => None,
    }
}

/// What is reported about a track.
#[derive(Debug, Clone, PartialEq, Eq)]
pub struct Metadata {
    /// The track's object path.
    pub track_id: String,
    pub title: Option<String>,
    /// The artist, when known.
    pub artists: Vec<String>,
    pub album: Option<String>,
    pub track_number: Option<i32>,
    /// The length in microseconds.
    pub length_us: u64,
}

/// The metadata of `track`.
pub fn metadata(track: &Track) -> (m: Metadata)
    ensures
        m.track_id@ == mpris_path(track.id),
        m.title == track.title,
        m.artists@.len() == (if track.artist is Artist { 1int } else { 0int }),
        track.artist matches ArtistName::Artist(a) ==> m.artists@[0] == a,
        m.album == track.album.0,
        m.track_number == match track.number {
            Some(n) => Some(n as i32),
            None => None::<i32>,
        },
        m.length_us == (if track.length <= u64::MAX / 1000 { track.length * 1000 } else { u64::MAX as int }),
{
    let mut artists: Vec<String> = Vec::new();
    match &track.artist {
        ArtistName::Artist(a) => artists.push(a.clone()),
        ArtistName::Unknown => {},
    }
    Metadata {
        track_id: track.mpris_id(),
        title: track.title.clone(),
        artists,
        album: track.album.0.clone(),
        track_number: match track.number {
            Some(n) => Some(n as i32),
            None => None,
        },
        length_us: if track.length <= u64::MAX / 1000 {
            track.length * 1000
        } else {
            u64::MAX
        },
    }
}

/// The command for a seek request of `seconds`.
pub fn seek_command(seconds: i64) -> (c: Command)
    ensures
        c == Command::Seek(seconds),
{
    Command::Seek(seconds)
}

/// The command for a request to move to `position_us` in the track with
/// the object path `track_id`.
pub fn set_position_command(track_id: String, position_us: u64) -> (c: Command)
    ensures
        c matches Command::SetPositionIfTrack { position_ms, mpris_id } && position_ms == position_us / 1000
            && mpris_id@ == track_id@,
{
    Command::SetPositionIfTrack { position_ms: position_us / 1000, mpris_id: track_id }
}

} // verus!
