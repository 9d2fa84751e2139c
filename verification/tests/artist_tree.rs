use deimos::ui::artist_album_list::RowIndex;
use deimos::ui::artist_tree::ArtistAlbumList;

fn list() -> ArtistAlbumList {
    ArtistAlbumList::new(vec![
        ("Zed".to_owned(), vec!["Z1".to_owned()]),
        ("Amy".to_owned(), vec!["A1".to_owned(), "A2".to_owned()]),
    ])
}

fn texts(list: &ArtistAlbumList) -> Vec<String> {
    list.rows().into_iter().map(|r| r.text).collect()
}

#[test]
fn rows_sorted_and_expandable() {
    let mut list = list();
    assert_eq!(texts(&list), vec!["Amy", "Zed"]);
    list.next();
    list.toggle();
    assert_eq!(texts(&list), vec!["Amy", "    A1", "    A2", "Zed"]);
    list.next();
    list.next();
    list.next();
    let rows = list.rows();
    assert_eq!(rows[3].index.artist, 1);
    list.toggle();
    assert_eq!(texts(&list), vec!["Amy", "    A1", "    A2", "Zed", "    Z1"]);
}

#[test]
fn toggle_collapses_to_the_artist() {
    let mut list = list();
    list.next();
    list.toggle();
    list.next();
    list.toggle();
    assert_eq!(texts(&list), vec!["Amy", "Zed"]);
    list.next();
    list.next();
    list.next();
    assert_eq!(texts(&list).len(), 2);
}

#[test]
fn next_stays_on_the_last_row() {
    let mut list = ArtistAlbumList::new(vec![("a".to_owned(), vec![]), ("b".to_owned(), vec![])]);
    list.next();
    list.next();
    list.next();
    assert_eq!(list.selected(), Some(RowIndex { artist: 1, album: None }));
}

#[test]
fn expanded_artist_without_albums_moves_to_the_next_artist() {
    let mut list = ArtistAlbumList::new(vec![("a".to_owned(), vec![]), ("b".to_owned(), vec!["b1".to_owned()])]);
    list.next();
    list.toggle();
    list.next();
    assert_eq!(list.selected(), Some(RowIndex { artist: 1, album: None }));
    list.toggle();
    list.next();
    assert_eq!(list.selected(), Some(RowIndex { artist: 1, album: Some(0) }));
    list.next();
    assert_eq!(list.selected(), Some(RowIndex { artist: 1, album: Some(0) }));
}
