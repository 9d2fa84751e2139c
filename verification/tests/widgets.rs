use deimos::mimi::format::Formatter;
use deimos::mimi::style::Style;
use deimos::widgets::{elapsed_text, screen_for_key, screen_title, song_values, AlbumTree, Queue, Screen, Song};

fn song(title: &str) -> Song {
    Song { title: Some(title.to_owned()), artist: None, album: Some("Alb".to_owned()) }
}

#[test]
fn screens() {
    assert_eq!(screen_title(Screen::Queue), "Queue");
    assert_eq!(screen_title(Screen::Albums), "Albums");
    assert_eq!(screen_for_key('1'), Some(Screen::Queue));
    assert_eq!(screen_for_key('2'), Some(Screen::Albums));
    assert_eq!(screen_for_key('3'), None);
}

#[test]
fn song_values_default_to_unknown() {
    let v = song_values(&song("T"));
    assert_eq!(v[0], ("title".to_owned(), "T".to_owned()));
    assert_eq!(v[1], ("artist".to_owned(), "Unknown".to_owned()));
    assert_eq!(v[2], ("album".to_owned(), "Alb".to_owned()));
}

#[test]
fn queue_marks_the_playing_song() {
    let f = Formatter::new("$title").unwrap();
    let mut q = Queue::new(&f);
    assert!(q.spans().is_empty());
    q.set_queue(vec![song("a"), song("b")]);
    q.set_position(Some(1));
    let text: Vec<(String, Style)> = q.spans();
    let joined: String = text.iter().map(|(t, _)| t.clone()).collect();
    assert_eq!(joined, "a\n> b\n");
}

#[test]
fn elapsed_time() {
    assert_eq!(elapsed_text(0), "0:00");
    assert_eq!(elapsed_text(65), "1:05");
    assert_eq!(elapsed_text(3600), "60:00");
}

#[test]
fn album_tree_moves_and_toggles() {
    let mut tree = AlbumTree::new(vec!["A".to_owned(), "B".to_owned()]);
    tree.down();
    assert_eq!(tree.toggle_target(), Some(("A".to_owned(), true)));
    tree.toggle(vec!["a1".to_owned(), "a2".to_owned()]);
    tree.down();
    tree.down();
    assert_eq!(tree.toggle_target(), Some(("A".to_owned(), false)));
    tree.toggle(vec![]);
    assert_eq!(tree.toggle_target(), Some(("A".to_owned(), true)));
    tree.down();
    tree.down();
    tree.down();
    tree.up();
    assert_eq!(tree.toggle_target(), Some(("B".to_owned(), true)));
}

#[test]
fn album_tree_up_stays_at_the_first_row() {
    let mut tree = AlbumTree::new(vec!["A".to_owned(), "B".to_owned()]);
    tree.up();
    assert_eq!(tree.toggle_target(), Some(("B".to_owned(), true)));
    tree.up();
    assert_eq!(tree.toggle_target(), Some(("A".to_owned(), true)));
    tree.up();
    assert_eq!(tree.toggle_target(), Some(("A".to_owned(), true)));
}
