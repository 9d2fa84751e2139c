use deimos::library::{AlbumName, ArtistName, Library, Track};
use deimos::ui::artist_album_list::{ArtistAlbumList, RowIndex, SelectError};

fn track(id: u64, album: Option<&str>, artist: Option<&str>) -> Track {
    Track {
        id,
        number: Some(id as u32),
        path: format!("/{id}.mp3"),
        title: Some(format!("Song {id}")),
        album: AlbumName(album.map(|a| a.to_owned())),
        artist: ArtistName::from_option(artist.map(|a| a.to_owned())),
        length: 1000,
    }
}

fn library() -> Library {
    Library::from_tracks(vec![
        track(0, Some("Zeta"), Some("Bravo")),
        track(1, Some("Alpha"), Some("Bravo")),
        track(2, Some("One"), Some("Alpha")),
        track(3, None, None),
    ])
}

#[test]
fn artists_sorted_unknown_first() {
    let list = ArtistAlbumList::new(&library());
    let rows = list.rows();
    assert_eq!(rows.len(), 3);
    assert_eq!(list.text(rows[0]), "<unknown>");
    assert_eq!(list.text(rows[1]), "Alpha");
    assert_eq!(list.text(rows[2]), "Bravo");
    assert_eq!(list.selected(), None);
    assert_eq!(list.artist(), None);
}

#[test]
fn toggle_expands_and_collapses() {
    let mut list = ArtistAlbumList::new(&library());
    list.move_selection(1);
    list.move_selection(2);
    assert_eq!(list.selected(), Some(2));
    list.toggle();
    let rows = list.rows().clone();
    assert_eq!(rows.len(), 5);
    assert_eq!(rows[3], RowIndex { artist: 2, album: Some(0) });
    assert_eq!(list.text(rows[3]), "    Alpha");
    assert_eq!(list.text(rows[4]), "    Zeta");
    list.move_selection(2);
    assert_eq!(list.album(), Some(AlbumName(Some("Zeta".to_owned()))));
    list.toggle();
    assert_eq!(list.rows().len(), 3);
    assert_eq!(list.selected(), Some(2), "collapsing selects the artist's row");
    assert_eq!(list.artist(), Some(ArtistName::Artist("Bravo".to_owned())));
    // toggling twice restores the rows
    list.toggle();
    list.toggle();
    assert_eq!(list.rows().len(), 3);
    assert_eq!(list.selected(), Some(2));
}

#[test]
fn select_expands_and_reports_missing() {
    let mut list = ArtistAlbumList::new(&library());
    let bravo = ArtistName::Artist("Bravo".to_owned());
    let alpha = AlbumName(Some("Alpha".to_owned()));
    assert_eq!(list.select(&bravo, Some(&alpha)), Ok(()));
    assert_eq!(list.album(), Some(alpha.clone()));
    assert_eq!(list.artist(), Some(bravo.clone()));
    assert_eq!(list.select(&ArtistName::Artist("Nobody".to_owned()), None), Err(SelectError::ArtistNotFound));
    assert_eq!(list.select(&bravo, Some(&AlbumName(Some("Nope".to_owned())))), Err(SelectError::AlbumNotFound));
    assert_eq!(list.album(), Some(alpha), "a failed selection changes nothing");
}

#[test]
fn move_selection_clamps() {
    let mut list = ArtistAlbumList::new(&library());
    list.move_selection(-1);
    assert_eq!(list.selected(), None);
    list.move_selection(5);
    assert_eq!(list.selected(), Some(0));
    list.move_selection(5);
    assert_eq!(list.selected(), Some(2));
    list.move_selection(isize::MIN);
    assert_eq!(list.selected(), Some(0));
}
