use deimos::library::{AlbumName, ArtistName, Library, Track};
use deimos::library_panel::{LibraryPanel, PanelItem};
use deimos::ui::search::SearchItem;
use deimos::ui::track_list::TrackListItem;
use std::sync::Arc;

fn track(id: u64, number: u32, album: &str, artist: &str) -> Track {
    Track {
        id,
        number: Some(number),
        path: format!("/{id}.mp3"),
        title: Some(format!("Song {id}")),
        album: AlbumName(Some(album.to_owned())),
        artist: ArtistName::Artist(artist.to_owned()),
        length: 1000,
    }
}

fn library() -> Library {
    Library::from_tracks(vec![
        track(0, 2, "Later", "Band"),
        track(1, 1, "Later", "Band"),
        track(2, 1, "Earlier", "Band"),
        track(3, 1, "Solo", "Other"),
    ])
}

fn describe(panel: &LibraryPanel) -> Vec<String> {
    panel
        .track_list
        .items()
        .iter()
        .map(|item| match item {
            TrackListItem::Track(t) => format!("{}", t.id),
            TrackListItem::Section(s) => format!("# {s}"),
        })
        .collect()
}

#[test]
fn next_focus_cycles() {
    assert_eq!(PanelItem::ArtistAlbumList.next(), PanelItem::TrackList);
    assert_eq!(PanelItem::TrackList.next(), PanelItem::ArtistAlbumList);
    assert_eq!(PanelItem::default(), PanelItem::ArtistAlbumList);
}

#[test]
fn selecting_an_artist_lists_albums_in_sections() {
    let lib = library();
    let mut panel = LibraryPanel::new(&lib);
    assert!(describe(&panel).is_empty());
    panel.move_selection(&lib, 1).unwrap();
    assert_eq!(describe(&panel), vec!["# Earlier", "2", "# Later", "1", "0"]);
    panel.move_selection(&lib, 1).unwrap();
    assert_eq!(describe(&panel), vec!["# Solo", "3"]);
}

#[test]
fn track_list_focus_moves_tracks() {
    let lib = library();
    let mut panel = LibraryPanel::new(&lib);
    panel.move_selection(&lib, 1).unwrap();
    panel.focus = panel.focus.next();
    panel.move_selection(&lib, 1).unwrap();
    assert_eq!(panel.track_list.selected().map(|t| t.id), Some(2));
    panel.move_selection(&lib, 1).unwrap();
    assert_eq!(panel.track_list.selected().map(|t| t.id), Some(1));
}

#[test]
fn select_entity_shows_album_and_track() {
    let lib = library();
    let mut panel = LibraryPanel::new(&lib);
    let t = lib.tracks().into_iter().find(|t| t.id == 0).unwrap();
    panel.select_entity(&lib, &SearchItem::Track(Arc::clone(&t))).unwrap();
    assert_eq!(describe(&panel), vec!["1", "0"]);
    assert_eq!(panel.track_list.selected().map(|t| t.id), Some(0));
    panel.select_entity(&lib, &SearchItem::Artist(ArtistName::Artist("Other".to_owned()))).unwrap();
    assert_eq!(describe(&panel), vec!["# Solo", "3"]);
    assert!(panel.track_list.selected().is_none());
    assert!(panel
        .select_entity(&lib, &SearchItem::Artist(ArtistName::Artist("Missing".to_owned())))
        .is_err());
    assert_eq!(describe(&panel), vec!["# Solo", "3"]);
}
