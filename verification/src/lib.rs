//! Library logic of a terminal music player: a small format-string language
//! for styled text, the play queue, the music library model and the state of
//! the browsing widgets.
pub mod mimi;
pub mod text;
pub mod order;
pub mod library;
pub mod play_queue;
pub mod player;
pub mod library_panel;
pub mod app;
pub mod config;
pub mod events;
pub mod widgets;
pub mod mpris;
pub mod decoding;
pub mod song_list;
pub mod play_state;
pub mod ui;
