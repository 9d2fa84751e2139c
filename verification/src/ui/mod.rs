//! State of the widgets the user browses the library with.
pub mod artist_album_list;
pub mod artist_tree;
pub mod search;
pub mod track_list;
pub mod now_playing;
pub mod substring_search;

use vstd::prelude::*;

verus! {

/// Whether a widget has the keyboard focus.
#[derive(Debug, Copy, Clone, PartialEq, Eq, Structural)]
pub enum ActiveState {
    Focused,
    Inactive,
}

impl ActiveState {
    /// `Focused` if `cond` holds, `Inactive` otherwise.
    pub fn focused_if(cond: bool) -> (s: ActiveState)
        ensures
            s == (if cond {
                ActiveState::Focused
            } else {
                ActiveState::Inactive
            }),
    {
        if cond {
            ActiveState::Focused
        } else {
            ActiveState::Inactive
        }
    }
}

} // verus!
