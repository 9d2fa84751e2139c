//! A plain list of songs with a movable selection.
use vstd::prelude::*;
use crate::ui::artist_album_list::{clamp_add_signed, moved_selection};

verus! {

/// A song as listed: its id, track number and title.
#[derive(Debug, Clone, PartialEq, Eq)]
pub struct Track {
    pub song_id: i64,
    pub number: Option<i64>,
    pub title: Option<String>,
}

/// The songs, and which one is selected.
#[derive(Debug)]
pub struct TrackList {
    tracks: Vec<Track>,
    selected: Option<usize>,
}

impl TrackList {
    pub closed spec fn tracks_view(self) -> Seq<Track> {
        self.tracks@
    }

    pub closed spec fn selected_view(self) -> Option<usize> {
        self.selected
    }

    /// A list of the songs, nothing selected.
    pub fn new(tracks: Vec<Track>) -> (l: TrackList)
        ensures
            l.tracks_view() == tracks@,
            l.selected_view() is None,
    {
        TrackList { tracks, selected: None }
    }

    /// The songs.
    pub fn tracks(&self) -> (t: &Vec<Track>)
        ensures
            t@ == self.tracks_view(),
    {
        &self.tracks
    }

    /// The position of the selected song, if any.
    pub fn selected(&self) -> (s: Option<usize>)
        ensures
            s == self.selected_view(),
    {
        self.selected
    }

    /// Moves the selection by `amount`, staying within the songs; from no
    /// selection, moving down selects the first song. Does nothing without
    /// songs.
    pub fn move_selection(&mut self, amount: isize)
        ensures
            final(self).tracks_view() == old(self).tracks_view(),
            final(self).selected_view() == moved_selection(old(self).selected_view(), amount, old(self).tracks_view().len()),
    {
        if self.tracks.len() == 0 {
            return;
        }
        self.selected = match self.selected {
            Some(selected) => Some(clamp_add_signed(selected, amount, self.tracks.len() - 1)),
            None => if amount > 0 {
                Some(0)
            } else {
                None
            },
        };
    }
}

impl Default for TrackList {
    fn default() -> (l: TrackList)
        ensures
            l.tracks_view().len() == 0,
            l.selected_view() is None,
    {
        TrackList { tracks: Vec::new(), selected: None }
    }
}

} // verus!
