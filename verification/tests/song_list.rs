use deimos::song_list::{Track, TrackList};

fn songs(n: i64) -> Vec<Track> {
    (0..n).map(|i| Track { song_id: i, number: Some(i + 1), title: Some(format!("s{i}")) }).collect()
}

#[test]
fn selection_moves_within_the_list() {
    let mut list = TrackList::new(songs(3));
    list.move_selection(-1);
    assert_eq!(list.selected(), None);
    list.move_selection(1);
    assert_eq!(list.selected(), Some(0));
    list.move_selection(5);
    assert_eq!(list.selected(), Some(2));
    list.move_selection(-1);
    assert_eq!(list.selected(), Some(1));
    assert_eq!(list.tracks().len(), 3);
    let mut empty = TrackList::default();
    empty.move_selection(1);
    assert_eq!(empty.selected(), None);
}
