//! The application's decisions: which command a key stands for, and what a
//! command does to the state. What has to happen outside (audio, seeking)
//! is handed back as an [`Effect`] for the caller to carry out.
use std::sync::Arc;
use vstd::prelude::*;
use crate::library::{Library, Track, mpris_path, same_track};
use crate::library_panel::{LibraryPanel, LibraryPanelView, PanelItem, entity_shown, panel_moved};
use crate::mimi::text::{push_char, str_chars};
use crate::play_queue::{LoopStatus, PlayQueueView, next_index, previous_index};
use crate::player::{Player, PlayerAction, PlayerView, action_for, current_of};
use crate::ui::artist_album_list::{SelectError, saturating_add_signed, toggle_outcome};
use crate::ui::search::{Search, SearchItem, SearchView, query_outcome};
use crate::ui::track_list::{ItemView, tracks_of};

verus! {

/// Which panel fills the main area.
#[derive(Debug, Clone, Copy, PartialEq, Eq, Structural)]
pub enum Panel {
    Library,
    Search,
}

impl Default for Panel {
    /// The library.
    fn default() -> (p: Panel)
        ensures
            p == Panel::Library,
    {
        Panel::Library
    }
}

/// A direction to move the selection in.
#[derive(Debug, Clone, Copy, PartialEq, Eq, Structural)]
pub enum Motion {
    Up,
    Down,
}

/// A key the user pressed.
#[derive(Debug, Clone, Copy, PartialEq, Eq, Structural)]
pub enum Key {
    Char(char),
    Tab,
    Backspace,
    Up,
    Down,
    Enter,
    Esc,
    /// Any other key.
    Other,
}

/// A single user input, or a request from a media controller.
#[derive(Debug)]
pub enum Command {
    /// Cancel out of whatever it is we're doing.
    Cancel,
    /// Start a new search query.
    StartSearch,
    /// Move focus to the next item in the panel.
    NextFocus,
    /// Act on the currently-selected item.
    Activate,
    /// Move the current selection.
    MoveCursor(Motion),
    /// The user typed something into the search input.
    SearchInput(char),
    /// Deletes the most recent character in the search input.
    SearchBackspace,
    /// Seeks the current track by the given number of seconds.
    Seek(i64),
    /// If the current track has the given MPRIS id, seeks to the position
    /// (in milliseconds).
    SetPositionIfTrack { position_ms: u64, mpris_id: String },
    SetLoopStatus(LoopStatus),
    SetShuffle(bool),
    /// Adds the selected track to the play queue.
    AddSongToQueue,
    /// Goes to the previous track near the start of a track, or restarts it.
    PreviousOrSeekToStart,
    Play,
    Pause,
    Stop,
    PlayPause,
    NextTrack,
    Quit,
}

/// What the caller has to do after a command.
#[derive(Debug)]
pub enum Effect {
    Nothing,
    /// Carry out the player actions in order, stopping at the first that
    /// fails. If all succeed and `resume` is set, call [`App::resume`]. Then
    /// reset the visualizer if `reset_visualizer` is set.
    Audio { actions: Vec<PlayerAction>, resume: bool, reset_visualizer: bool },
    /// Seek the current track to `target_ms`, if one is playing. If that
    /// fails, call [`App::seek_failed`] when `next_on_failure` is set, or
    /// fail. Then reset the visualizer.
    Seek { target_ms: u64, next_on_failure: bool },
}

/// What the player reports while it plays.
#[derive(Debug, Clone, Copy, PartialEq, Eq, Structural)]
pub enum PlayerMessage {
    /// A piece of audio has been decoded; playback is `timestamp_ms` into
    /// the track.
    AudioFragment { timestamp_ms: u64 },
    /// The track has ended.
    Finished,
}

/// Something that changes the application state.
#[derive(Debug)]
pub enum Message {
    Command(Command),
    Player(PlayerMessage),
}

impl Message {
    /// Whether the message only reports audio progress, so that only the
    /// parts of the screen that show it need redrawing.
    pub fn audio_only(&self) -> (b: bool)
        ensures
            b == (*self matches Message::Player(PlayerMessage::AudioFragment { .. })),
    {
        match self {
            Message::Command(_) => false,
            Message::Player(PlayerMessage::AudioFragment { .. }) => true,
            Message::Player(_) => false,
        }
    }
}

/// A command that failed.
#[derive(Debug, Clone, Copy, PartialEq, Eq, Structural)]
pub enum AppError {
    /// The search result to show is not in the artist/album list.
    Select(SelectError),
}

/// The command a key stands for in the given panel, if any.
pub open spec fn command_for(panel: Panel, key: Key) -> Option<Command> {
    match (panel, key) {
        (Panel::Library, Key::Char('/')) => Some(Command::StartSearch),
        (Panel::Library, Key::Char('q')) => Some(Command::Quit),
        (Panel::Library, Key::Tab) => Some(Command::NextFocus),
        (Panel::Library, Key::Char('u')) => Some(Command::AddSongToQueue),
        (Panel::Search, Key::Char(c)) => Some(Command::SearchInput(c)),
        (Panel::Search, Key::Backspace) => Some(Command::SearchBackspace),
        (_, Key::Up) => Some(Command::MoveCursor(Motion::Up)),
        (_, Key::Down) => Some(Command::MoveCursor(Motion::Down)),
        (_, Key::Enter) => Some(Command::Activate),
        (_, Key::Char(',')) => Some(Command::Seek(-5i64)),
        (_, Key::Char('.')) => Some(Command::Seek(5i64)),
        (_, Key::Char('z')) => Some(Command::PreviousOrSeekToStart),
        (_, Key::Char('x')) => Some(Command::PlayPause),
        (_, Key::Char('c')) => Some(Command::NextTrack),
        (_, Key::Esc) => Some(Command::Cancel),
        _ => None,
    }
}

/// The state of the application.
#[derive(Debug)]
pub struct App {
    pub library: Library,
    pub player: Player,
    pub library_panel: LibraryPanel,
    pub search: Search,
    pub active_panel: Panel,
    pub should_quit: bool,
}

/// The contents of an [`App`], apart from the library.
pub struct AppView {
    pub player: PlayerView,
    pub panel: LibraryPanelView,
    pub search: SearchView,
    pub active_panel: Panel,
    pub should_quit: bool,
}

impl View for App {
    type V = AppView;

    open spec fn view(&self) -> AppView {
        AppView {
            player: self.player@,
            panel: self.library_panel@,
            search: self.search@,
            active_panel: self.active_panel,
            should_quit: self.should_quit,
        }
    }
}

/// The two optional tracks hold the same values, or are both absent.
pub open spec fn same_current(a: Option<Arc<Track>>, b: Option<Arc<Track>>) -> bool {
    match (a, b) {
        (None, None) => true,
        (Some(x), Some(y)) => same_track(*x, *y),
        _ => false,
    }
}

/// How far a move goes: one row up or down.
pub open spec fn motion_delta(m: Motion) -> isize {
    match m {
        Motion::Up => -1isize,
        Motion::Down => 1isize,
    }
}

/// Where seeking by `seconds` from `now_ms` goes, in milliseconds: never
/// before the start, and at most the largest timestamp.
pub open spec fn seek_target(now_ms: u64, seconds: i64) -> int {
    if seconds > 0 {
        if now_ms + seconds * 1000 > u64::MAX {
            u64::MAX as int
        } else {
            now_ms + seconds * 1000
        }
    } else if now_ms + seconds * 1000 < 0 {
        0
    } else {
        now_ms + seconds * 1000
    }
}

/// Five seconds: from there on, going back restarts the track.
pub open spec fn restart_threshold_ms() -> u64 {
    5000
}

/// The selection moved by `delta` in the search results.
pub open spec fn cursor_moved(old: SearchView, new: SearchView, delta: isize) -> bool {
    &&& new.query == old.query
    &&& new.results == old.results
    &&& new.selected == match old.selected {
        None => None,
        Some(s) => Some((if saturating_add_signed(s, delta) < old.results.len() - 1 {
            saturating_add_signed(s, delta)
        } else {
            old.results.len() - 1
        }) as usize),
    }
}

/// The query with its last character removed, if it has one.
pub open spec fn without_last(q: Seq<char>) -> Seq<char> {
    if q.len() == 0 {
        q
    } else {
        q.drop_last()
    }
}

/// The selected track of the track list, if any.
pub open spec fn selected_track(p: LibraryPanelView) -> Option<Arc<Track>> {
    match p.tracks.selected {
        Some(i) => match p.tracks.items[i as int] {
            ItemView::Track(t) => Some(t),
            ItemView::Section(_) => None,
        },
        None => None,
    }
}

/// `k` is the first position of a track with the same values as `t`.
pub open spec fn first_same(tracks: Seq<Arc<Track>>, t: Track, k: int) -> bool {
    &&& 0 <= k < tracks.len()
    &&& same_track(*tracks[k], t)
    &&& forall|m: int| 0 <= m < k ==> !same_track(*#[trigger] tracks[m], t)
}

/// The player after starting to play (see [`Player::play`]), and the effect
/// for it.
pub open spec fn played(old: PlayerView, new: PlayerView, r: Result<Effect, AppError>) -> bool {
    if old.queue.index is None && old.queue.tracks.len() > 0 {
        &&& new == (PlayerView { queue: PlayQueueView { index: Some(0usize), ..old.queue }, ..old })
        &&& r matches Ok(Effect::Audio { actions, resume, reset_visualizer })
        &&& actions@ == seq![PlayerAction::Load(old.queue.tracks[0])]
        &&& resume
        &&& !reset_visualizer
    } else {
        &&& new == (PlayerView { paused: false, ..old })
        &&& r matches Ok(Effect::Nothing)
    }
}

/// The player moved to queue position `index`, and the effect asks for that
/// to be played, then for the visualizer to be reset.
pub open spec fn moved_to(old: PlayerView, new: PlayerView, index: Option<usize>, r: Result<Effect, AppError>) -> bool {
    &&& new == (PlayerView { queue: PlayQueueView { index, ..old.queue }, ..old })
    &&& r matches Ok(Effect::Audio { actions, resume, reset_visualizer })
    &&& actions@ == seq![action_for(old.queue, index)]
    &&& !resume
    &&& reset_visualizer
}

/// Only the player changes (to `new`), and nothing has to happen outside.
pub open spec fn player_only(old: AppView, new: AppView, player: PlayerView, r: Result<Effect, AppError>) -> bool {
    &&& new == (AppView { player, ..old })
    &&& r matches Ok(Effect::Nothing)
}

/// Nothing changes and nothing has to happen.
pub open spec fn unchanged(old: AppView, new: AppView, r: Result<Effect, AppError>) -> bool {
    &&& new == old
    &&& r matches Ok(Effect::Nothing)
}

/// A seek to `target` is asked for; the state doesn't change.
pub open spec fn seeks(old: AppView, new: AppView, target: int, next_on_failure: bool, r: Result<Effect, AppError>) -> bool {
    &&& new == old
    &&& r matches Ok(Effect::Seek { target_ms, next_on_failure: n }) && target_ms == target && n == next_on_failure
}

/// What a command does: the state goes from `old` to `new`, and `r` is
/// what the caller has to do, or the error.
pub open spec fn dispatched(old: AppView, new: AppView, library: Library, command: Command, r: Result<Effect, AppError>) -> bool {
    match command {
        Command::Cancel => match old.active_panel {
            Panel::Library => unchanged(old, new, r),
            Panel::Search => new == (AppView { active_panel: Panel::Library, ..old }) && r matches Ok(Effect::Nothing),
        },
        Command::StartSearch => {
            &&& new == (AppView { active_panel: Panel::Search, search: new.search, ..old })
            &&& new.search.query.len() == 0 && new.search.results.len() == 0 && new.search.selected is None
            &&& r matches Ok(Effect::Nothing)
        },
        Command::SearchInput(c) => {
            &&& new == (AppView { search: new.search, ..old })
            &&& query_outcome(library.artists@, old.search.query.push(c), new.search)
            &&& r matches Ok(Effect::Nothing)
        },
        Command::SearchBackspace => {
            &&& new == (AppView { search: new.search, ..old })
            &&& query_outcome(library.artists@, without_last(old.search.query), new.search)
            &&& r matches Ok(Effect::Nothing)
        },
        Command::Activate => match old.active_panel {
            Panel::Library => match old.panel.focus {
                PanelItem::ArtistAlbumList => {
                    &&& new == (AppView { panel: LibraryPanelView { list: new.panel.list, ..old.panel }, ..old })
                    &&& toggle_outcome(old.panel.list, new.panel.list)
                    &&& r matches Ok(Effect::Nothing)
                },
                PanelItem::TrackList => match selected_track(old.panel) {
                    None => unchanged(old, new, r),
                    Some(t) => {
                        let tracks = tracks_of(old.panel.tracks.items);
                        &&& new == (AppView { player: new.player, ..old })
                        &&& new.player.paused == old.player.paused
                        &&& new.player.timestamp_ms == old.player.timestamp_ms
                        &&& new.player.queue.original_order == tracks
                        &&& new.player.queue.tracks.to_multiset() == tracks.to_multiset()
                        &&& !old.player.queue.shuffled ==> new.player.queue.tracks == tracks
                        &&& new.player.queue.loop_status == old.player.queue.loop_status
                        &&& new.player.queue.shuffled == old.player.queue.shuffled
                        &&& new.player.queue.index matches Some(k) && first_same(tracks, *t, k as int)
                        &&& r matches Ok(Effect::Audio { actions, resume, reset_visualizer })
                        &&& actions@ == seq![PlayerAction::Stop, PlayerAction::Load(new.player.queue.tracks[new.player.queue.index->Some_0 as int])]
                        &&& resume
                        &&& reset_visualizer
                    },
                },
            },
            Panel::Search => match old.search.selected {
                None => unchanged(old, new, r),
                Some(i) => {
                    let item = old.search.results[i as int].item;
                    &&& new == (AppView { active_panel: Panel::Library, panel: new.panel, ..old })
                    &&& exists|res: Result<(), SelectError>| {
                        &&& #[trigger] entity_shown(old.panel, new.panel, library, item, res)
                        &&& match res {
                            Ok(_) => r matches Ok(Effect::Nothing),
                            Err(e) => r == Err::<Effect, AppError>(AppError::Select(e)),
                        }
                    }
                },
            },
        },
        Command::Quit => new == (AppView { should_quit: true, ..old }) && r matches Ok(Effect::Nothing),
        Command::MoveCursor(m) => match old.active_panel {
            Panel::Library => {
                &&& new == (AppView { panel: new.panel, ..old })
                &&& panel_moved(old.panel, new.panel, library, motion_delta(m))
                &&& r matches Ok(Effect::Nothing)
            },
            Panel::Search => {
                &&& new == (AppView { search: new.search, ..old })
                &&& cursor_moved(old.search, new.search, motion_delta(m))
                &&& r matches Ok(Effect::Nothing)
            },
        },
        Command::NextFocus => {
            &&& new == (AppView { panel: LibraryPanelView { focus: new.panel.focus, ..old.panel }, ..old })
            &&& new.panel.focus == match old.panel.focus {
                PanelItem::ArtistAlbumList => PanelItem::TrackList,
                PanelItem::TrackList => PanelItem::ArtistAlbumList,
            }
            &&& r matches Ok(Effect::Nothing)
        },
        Command::Seek(seconds) => match old.player.timestamp_ms {
            None => unchanged(old, new, r),
            Some(now) => seeks(old, new, seek_target(now, seconds), true, r),
        },
        Command::SetPositionIfTrack { position_ms, mpris_id } => match current_of(old.player.queue) {
            Some(t) => if mpris_path(t.id) == mpris_id@ {
                seeks(old, new, position_ms as int, true, r)
            } else {
                unchanged(old, new, r)
            },
            None => unchanged(old, new, r),
        },
        Command::SetLoopStatus(loop_status) => player_only(
            old,
            new,
            PlayerView { queue: PlayQueueView { loop_status, ..old.player.queue }, ..old.player },
            r,
        ),
        Command::SetShuffle(shuffle) => {
            &&& new == (AppView { player: new.player, ..old })
            &&& new.player.paused == old.player.paused
            &&& new.player.timestamp_ms == old.player.timestamp_ms
            &&& new.player.queue.shuffled == shuffle
            &&& new.player.queue.loop_status == old.player.queue.loop_status
            &&& new.player.queue.original_order == old.player.queue.original_order
            &&& shuffle == old.player.queue.shuffled ==> new.player == old.player
            &&& !shuffle ==> new.player.queue.tracks == old.player.queue.original_order
            &&& match old.player.queue.index {
                Some(i) => new.player.queue.index matches Some(j) && new.player.queue.tracks[j as int].id
                    == old.player.queue.tracks[i as int].id,
                None => new.player.queue.index is None,
            }
            &&& r matches Ok(Effect::Nothing)
        },
        Command::AddSongToQueue => match selected_track(old.panel) {
            None => unchanged(old, new, r),
            Some(t) => player_only(
                old,
                new,
                PlayerView {
                    queue: PlayQueueView {
                        tracks: old.player.queue.tracks.push(t),
                        original_order: old.player.queue.original_order.push(t),
                        ..old.player.queue
                    },
                    ..old.player
                },
                r,
            ),
        },
        Command::Play => new == (AppView { player: new.player, ..old }) && played(old.player, new.player, r),
        Command::PlayPause => if !old.player.paused && old.player.queue.index is Some {
            player_only(old, new, PlayerView { paused: true, ..old.player }, r)
        } else {
            new == (AppView { player: new.player, ..old }) && played(old.player, new.player, r)
        },
        Command::Pause => player_only(
            old,
            new,
            PlayerView { paused: old.player.paused || old.player.queue.index is Some, ..old.player },
            r,
        ),
        Command::Stop => {
            &&& new == (AppView { player: PlayerView { queue: PlayQueueView { index: None, ..old.player.queue }, ..old.player }, ..old })
            &&& r matches Ok(Effect::Audio { actions, resume, reset_visualizer })
            &&& actions@ == seq![PlayerAction::Stop]
            &&& !resume
            &&& !reset_visualizer
        },
        Command::PreviousOrSeekToStart => if old.player.timestamp_ms matches Some(now) && now >= restart_threshold_ms() {
            seeks(old, new, 0, false, r)
        } else {
            new == (AppView { player: new.player, ..old }) && moved_to(old.player, new.player, previous_index(old.player.queue), r)
        },
        Command::NextTrack => new == (AppView { player: new.player, ..old }) && moved_to(old.player, new.player, next_index(old.player.queue), r),
    }
}


impl App {
    /// The parts are consistent with each other and with the library.
    pub open spec fn wf(self) -> bool {
        &&& self.player.wf()
        &&& self.library_panel.wf(self.library)
        &&& self.search.wf()
    }

    /// The application for `library`: the library panel active, nothing
    /// selected, an empty search and an empty, paused player.
    pub fn new(library: Library) -> (app: App)
        requires
            library.wf(),
        ensures
            app.wf(),
            app.library == library,
            app@.active_panel == Panel::Library,
            !app@.should_quit,
            app@.panel.focus == PanelItem::ArtistAlbumList,
            app@.panel.list.selected is None,
            app@.panel.tracks.items.len() == 0,
            app@.search.query.len() == 0,
            app@.search.results.len() == 0,
            app@.player.queue.tracks.len() == 0,
            app@.player.queue.index is None,
            app@.player.paused,
    {
        let library_panel = LibraryPanel::new(&library);
        App {
            library,
            player: Player::new(),
            library_panel,
            search: Search::default(),
            active_panel: Panel::Library,
            should_quit: false,
        }
    }

    /// The command `key` stands for in the active panel, if any.
    pub fn key_to_command(&self, key: Key) -> (c: Option<Command>)
        ensures
            c == command_for(self.active_panel, key),
    {
        match (self.active_panel, key) {
            (Panel::Library, Key::Char('/')) => Some(Command::StartSearch),
            (Panel::Library, Key::Char('q')) => Some(Command::Quit),
            (Panel::Library, Key::Tab) => Some(Command::NextFocus),
            (Panel::Library, Key::Char('u')) => Some(Command::AddSongToQueue),
            (Panel::Search, Key::Char(c)) => Some(Command::SearchInput(c)),
            (Panel::Search, Key::Backspace) => Some(Command::SearchBackspace),
            (_, Key::Up) => Some(Command::MoveCursor(Motion::Up)),
            (_, Key::Down) => Some(Command::MoveCursor(Motion::Down)),
            (_, Key::Enter) => Some(Command::Activate),
            (_, Key::Char(',')) => Some(Command::Seek(-5)),
            (_, Key::Char('.')) => Some(Command::Seek(5)),
            (_, Key::Char('z')) => Some(Command::PreviousOrSeekToStart),
            (_, Key::Char('x')) => Some(Command::PlayPause),
            (_, Key::Char('c')) => Some(Command::NextTrack),
            (_, Key::Esc) => Some(Command::Cancel),
            _ => None,
        }
    }

    /// Carries out `command` on the state; what has to happen outside is
    /// returned.
    pub fn dispatch_command(&mut self, command: Command) -> (r: Result<Effect, AppError>)
        requires
            old(self).wf(),
        ensures
            final(self).wf(),
            final(self).library == old(self).library,
            dispatched(old(self)@, final(self)@, old(self).library, command, r),
    {
        match command {
            Command::Cancel => {
                match self.active_panel {
                    Panel::Library => {},
                    Panel::Search => {
                        self.active_panel = Panel::Library;
                    },
                }
                Ok(Effect::Nothing)
            },
            Command::StartSearch => {
                self.active_panel = Panel::Search;
                self.search = Search::default();
                Ok(Effect::Nothing)
            },
            Command::SearchInput(c) => {
                let mut query = self.search.query().to_string();
                push_char(&mut query, c);
                self.search.run_query(&self.library, query.as_str());
                Ok(Effect::Nothing)
            },
            Command::SearchBackspace => {
                let mut chars = str_chars(self.search.query());
                let _ = chars.pop();
                let query = chars_string(&chars);
                self.search.run_query(&self.library, query.as_str());
                Ok(Effect::Nothing)
            },
            Command::Activate => self.activate_item(),
            Command::Quit => {
                self.should_quit = true;
                Ok(Effect::Nothing)
            },
            Command::MoveCursor(motion) => {
                let delta: isize = match motion {
                    Motion::Up => -1,
                    Motion::Down => 1,
                };
                match self.active_panel {
                    Panel::Library => {
                        let _ = self.library_panel.move_selection(&self.library, delta);
                    },
                    Panel::Search => self.search.move_cursor(delta),
                }
                Ok(Effect::Nothing)
            },
            Command::NextFocus => {
                self.library_panel.focus = self.library_panel.focus.next();
                Ok(Effect::Nothing)
            },
            Command::Seek(seconds) => {
                let now = match self.player.timestamp() {
                    Some(now) => now,
                    None => {
                        return Ok(Effect::Nothing);
                    },
                };
                Ok(Effect::Seek { target_ms: seek_target_ms(now, seconds), next_on_failure: true })
            },
            Command::SetPositionIfTrack { position_ms, mpris_id } => {
                let track = match self.player.current() {
                    Some(t) => t,
                    None => {
                        return Ok(Effect::Nothing);
                    },
                };
                if track.mpris_id() != mpris_id {
                    return Ok(Effect::Nothing);
                }
                Ok(Effect::Seek { target_ms: position_ms, next_on_failure: true })
            },
            Command::SetLoopStatus(loop_status) => {
                self.player.set_loop_status(loop_status);
                Ok(Effect::Nothing)
            },
            Command::SetShuffle(shuffle) => {
                self.player.set_shuffle(shuffle);
                Ok(Effect::Nothing)
            },
            Command::AddSongToQueue => {
                let selected = match self.library_panel.track_list.selected() {
                    Some(t) => t,
                    None => {
                        return Ok(Effect::Nothing);
                    },
                };
                self.player.queue_push(selected);
                Ok(Effect::Nothing)
            },
            Command::Play => self.play(),
            Command::PlayPause => {
                if self.player.playing() {
                    self.player.pause();
                    Ok(Effect::Nothing)
                } else {
                    self.play()
                }
            },
            Command::Pause => {
                self.player.pause();
                Ok(Effect::Nothing)
            },
            Command::Stop => {
                let action = self.player.stop();
                Ok(Effect::Audio { actions: actions_of(action, None), resume: false, reset_visualizer: false })
            },
            Command::PreviousOrSeekToStart => {
                let restart = match self.player.timestamp() {
                    Some(now) => now >= 5000,
                    None => false,
                };
                if restart {
                    return Ok(Effect::Seek { target_ms: 0, next_on_failure: false });
                }
                let action = self.player.previous();
                Ok(Effect::Audio { actions: actions_of(action, None), resume: false, reset_visualizer: true })
            },
            Command::NextTrack => {
                let action = self.player.next();
                Ok(Effect::Audio { actions: actions_of(action, None), resume: false, reset_visualizer: true })
            },
        }
    }

    /// Starts playback (see [`Player::play`]).
    fn play(&mut self) -> (r: Result<Effect, AppError>)
        requires
            old(self).wf(),
        ensures
            final(self).wf(),
            final(self).library == old(self).library,
            final(self)@ == (AppView { player: final(self)@.player, ..old(self)@ }),
            played(old(self)@.player, final(self)@.player, r),
    {
        let action = self.player.play();
        match action {
            PlayerAction::Keep => Ok(Effect::Nothing),
            _ => Ok(Effect::Audio { actions: actions_of(action, None), resume: true, reset_visualizer: false }),
        }
    }

    /// Acts on the selection of the active panel: toggles the selected
    /// artist, plays the track list from the selected track, or shows the
    /// selected search result in the library panel.
    fn activate_item(&mut self) -> (r: Result<Effect, AppError>)
        requires
            old(self).wf(),
        ensures
            final(self).wf(),
            final(self).library == old(self).library,
            dispatched(old(self)@, final(self)@, old(self).library, Command::Activate, r),
    {
        match self.active_panel {
            Panel::Library => match self.library_panel.focus {
                PanelItem::ArtistAlbumList => {
                    self.library_panel.artist_album_list.toggle();
                    Ok(Effect::Nothing)
                },
                PanelItem::TrackList => {
                    let selected = match self.library_panel.track_list.selected() {
                        Some(t) => t,
                        None => {
                            return Ok(Effect::Nothing);
                        },
                    };
                    let tracks = self.library_panel.track_list.tracks();
                    proof {
                        lemma_selected_listed(self.library_panel.track_list@.items, self.library_panel.track_list@.selected->Some_0 as int);
                    }
                    let index = first_same_position(&tracks, &selected);
                    let ghost listed = tracks@;
                    let stop = self.player.set_play_queue(tracks);
                    proof {
                        assert(self.player@.queue.tracks.len() == listed.len()) by {
                            broadcast use vstd::seq_lib::group_to_multiset_ensures;
                            assert(self.player@.queue.tracks.to_multiset().len() == listed.to_multiset().len());
                        }
                    }
                    let load = self.player.set_queue_index(Some(index));
                    Ok(Effect::Audio { actions: actions_of(stop, Some(load)), resume: true, reset_visualizer: true })
                },
            },
            Panel::Search => {
                let item = match self.search.selected_item() {
                    Some(item) => item,
                    None => {
                        return Ok(Effect::Nothing);
                    },
                };
                self.active_panel = Panel::Library;
                match self.library_panel.select_entity(&self.library, &item) {
                    Ok(()) => Ok(Effect::Nothing),
                    Err(e) => Err(AppError::Select(e)),
                }
            },
        }
    }

    /// Playback of a loaded track can start: unpauses.
    pub fn resume(&mut self)
        requires
            old(self).wf(),
        ensures
            final(self).wf(),
            final(self).library == old(self).library,
            final(self)@ == (AppView { player: PlayerView { paused: false, ..old(self)@.player }, ..old(self)@ }),
    {
        self.player.set_paused(false);
    }

    /// A seek went past what the track holds: moves to the next track, which
    /// the returned action asks to be played.
    pub fn seek_failed(&mut self) -> (a: PlayerAction)
        requires
            old(self).wf(),
        ensures
            final(self).wf(),
            final(self).library == old(self).library,
            final(self)@ == (AppView {
                player: PlayerView { queue: PlayQueueView { index: next_index(old(self)@.player.queue), ..old(self)@.player.queue }, ..old(self)@.player },
                ..old(self)@
            }),
            a == action_for(old(self)@.player.queue, next_index(old(self)@.player.queue)),
    {
        self.player.next()
    }

    /// Handles a message: a command (see [`App::dispatch_command`]), audio
    /// progress, or the end of the track, which moves to the next one. Also
    /// says whether the current track changed.
    pub fn dispatch(&mut self, message: Message) -> (r: (Result<Effect, AppError>, bool))
        requires
            old(self).wf(),
        ensures
            final(self).wf(),
            final(self).library == old(self).library,
            match message {
                Message::Command(c) => dispatched(old(self)@, final(self)@, old(self).library, c, r.0),
                Message::Player(PlayerMessage::AudioFragment { timestamp_ms }) => {
                    &&& final(self)@ == (AppView { player: PlayerView { timestamp_ms: Some(timestamp_ms), ..old(self)@.player }, ..old(self)@ })
                    &&& r.0 matches Ok(Effect::Nothing)
                },
                Message::Player(PlayerMessage::Finished) => dispatched(old(self)@, final(self)@, old(self).library, Command::NextTrack, r.0),
            },
            r.1 == !same_current(current_of(old(self)@.player.queue), current_of(final(self)@.player.queue)),
    {
        let before = self.player.current();
        let r = match message {
            Message::Command(c) => self.dispatch_command(c),
            Message::Player(PlayerMessage::AudioFragment { timestamp_ms }) => {
                self.on_progress(timestamp_ms);
                Ok(Effect::Nothing)
            },
            Message::Player(PlayerMessage::Finished) => self.dispatch_command(Command::NextTrack),
        };
        let after = self.player.current();
        let same = match (&before, &after) {
            (None, None) => true,
            (Some(x), Some(y)) => x.same(y),
            _ => false,
        };
        (r, !same)
    }

    /// Playback has reached `timestamp_ms` into the current track.
    pub fn on_progress(&mut self, timestamp_ms: u64)
        requires
            old(self).wf(),
        ensures
            final(self).wf(),
            final(self).library == old(self).library,
            final(self)@ == (AppView { player: PlayerView { timestamp_ms: Some(timestamp_ms), ..old(self)@.player }, ..old(self)@ }),
    {
        self.player.set_timestamp(Some(timestamp_ms));
    }
}

/// The action `first`, followed by `second` if given.
fn actions_of(first: PlayerAction, second: Option<PlayerAction>) -> (v: Vec<PlayerAction>)
    ensures
        v@ == match second {
            Some(b) => seq![first, b],
            None => seq![first],
        },
{
    let mut v: Vec<PlayerAction> = Vec::new();
    v.push(first);
    match second {
        Some(b) => v.push(b),
        None => {},
    }
    v
}

/// [`seek_target`], computed.
fn seek_target_ms(now_ms: u64, seconds: i64) -> (t: u64)
    ensures
        t == seek_target(now_ms, seconds),
{
    if seconds > 0 {
        let magnitude = seconds as u64;
        if magnitude > (u64::MAX - now_ms) / 1000 {
            u64::MAX
        } else {
            now_ms + magnitude * 1000
        }
    } else {
        let magnitude: u64 = if seconds == i64::MIN {
            (i64::MAX as u64) + 1
        } else {
            (-seconds) as u64
        };
        if magnitude > now_ms / 1000 || magnitude * 1000 > now_ms {
            0
        } else {
            now_ms - magnitude * 1000
        }
    }
}

/// A `String` of the characters.
fn chars_string(chars: &Vec<char>) -> (s: String)
    ensures
        s@ == chars@,
{
    let mut s = String::new();
    let mut i: usize = 0;
    while i < chars.len()
        invariant
            0 <= i <= chars.len(),
            s@ == chars@.take(i as int),
        decreases chars.len() - i,
    {
        push_char(&mut s, chars[i]);
        i = i + 1;
        assert(s@ =~= chars@.take(i as int));
    }
    assert(chars@.take(chars@.len() as int) =~= chars@);
    s
}

/// The first position of a track with the same values as `t`, which must
/// be there.
fn first_same_position(tracks: &Vec<Arc<Track>>, t: &Arc<Track>) -> (k: usize)
    requires
        tracks@.contains(*t),
    ensures
        first_same(tracks@, **t, k as int),
{
    let mut k: usize = 0;
    while k < tracks.len()
        invariant
            0 <= k <= tracks.len(),
            tracks@.contains(*t),
            forall|m: int| 0 <= m < k ==> !same_track(*#[trigger] tracks@[m], **t),
        decreases tracks.len() - k,
    {
        if tracks[k].same(t) {
            return k;
        }
        k = k + 1;
    }
    proof {
        let m = choose|m: int| 0 <= m < tracks@.len() && tracks@[m] == *t;
        assert(!same_track(*tracks@[m], **t));
    }
    0
}

/// A selected track row's track is among the list's tracks.
proof fn lemma_selected_listed(items: Seq<ItemView>, i: int)
    requires
        0 <= i < items.len(),
        items[i] is Track,
    ensures
        tracks_of(items).contains(items[i]->Track_0),
    decreases items.len(),
{
    if i == items.len() - 1 {
        let t = items[i]->Track_0;
        assert(tracks_of(items).last() == t);
    } else {
        lemma_selected_listed(items.drop_last(), i);
        let t = items[i]->Track_0;
        let k = choose|k: int| 0 <= k < tracks_of(items.drop_last()).len() && tracks_of(items.drop_last())[k] == t;
        assert(tracks_of(items)[k] == t);
    }
}

/// The key bindings. In the library panel: `/` searches, `q` quits, Tab
/// moves the focus, `u` queues the selected track; `,` and `.` seek five
/// seconds back and forward, `z` goes to the previous track (or the start
/// of this one), `x` plays or pauses and `c` goes to the next track. In the
/// search panel every character is typed into the query and Backspace
/// deletes one. In both, the arrows move the cursor, Enter activates the
/// selection and Esc cancels; other keys do nothing.
pub proof fn lemma_key_bindings()
    ensures
        command_for(Panel::Library, Key::Char('/')) == Some(Command::StartSearch),
        command_for(Panel::Library, Key::Char('q')) == Some(Command::Quit),
        command_for(Panel::Library, Key::Tab) == Some(Command::NextFocus),
        command_for(Panel::Library, Key::Char('u')) == Some(Command::AddSongToQueue),
        command_for(Panel::Library, Key::Char(',')) == Some(Command::Seek(-5i64)),
        command_for(Panel::Library, Key::Char('.')) == Some(Command::Seek(5i64)),
        command_for(Panel::Library, Key::Char('z')) == Some(Command::PreviousOrSeekToStart),
        command_for(Panel::Library, Key::Char('x')) == Some(Command::PlayPause),
        command_for(Panel::Library, Key::Char('c')) == Some(Command::NextTrack),
        command_for(Panel::Library, Key::Backspace) is None,
        command_for(Panel::Library, Key::Other) is None,
        command_for(Panel::Library, Key::Char('a')) is None,
        forall|c: char| #[trigger] command_for(Panel::Search, Key::Char(c)) == Some(Command::SearchInput(c)),
        command_for(Panel::Search, Key::Backspace) == Some(Command::SearchBackspace),
        command_for(Panel::Search, Key::Tab) is None,
        command_for(Panel::Search, Key::Other) is None,
        forall|p: Panel| #[trigger] command_for(p, Key::Up) == Some(Command::MoveCursor(Motion::Up)),
        forall|p: Panel| #[trigger] command_for(p, Key::Down) == Some(Command::MoveCursor(Motion::Down)),
        forall|p: Panel| #[trigger] command_for(p, Key::Enter) == Some(Command::Activate),
        forall|p: Panel| #[trigger] command_for(p, Key::Esc) == Some(Command::Cancel),
{
}

/// Seeking by `seconds` while a track plays asks for the position that many
/// seconds (a thousand milliseconds each) away from the current one,
/// clamped to the positions there are; nothing else changes. With nothing
/// playing it does nothing.
pub proof fn lemma_seek_by_seconds(old: AppView, new: AppView, library: Library, seconds: i64, r: Result<Effect, AppError>)
    requires
        dispatched(old, new, library, Command::Seek(seconds), r),
    ensures
        new == old,
        old.player.timestamp_ms is None ==> r matches Ok(Effect::Nothing),
        old.player.timestamp_ms matches Some(now) ==> (r matches Ok(Effect::Seek { target_ms, next_on_failure }) && next_on_failure && {
            let wanted = now + 1000 * seconds;
            &&& 0 <= wanted <= u64::MAX ==> target_ms == wanted
            &&& wanted < 0 ==> target_ms == 0
            &&& wanted > u64::MAX ==> target_ms == u64::MAX
        }),
{
}

} // verus!
