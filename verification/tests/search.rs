use std::sync::Arc;

use deimos::library::{AlbumName, ArtistName, Library, Track};
use deimos::ui::search::{Search, SearchItem};

fn track(id: u64, title: &str, album: &str, artist: &str) -> Track {
    Track {
        id,
        number: Some(id as u32),
        path: format!("/{id}.mp3"),
        title: Some(title.to_owned()),
        album: AlbumName(Some(album.to_owned())),
        artist: ArtistName::Artist(artist.to_owned()),
        length: 1000,
    }
}

fn library() -> Library {
    Library::from_tracks(vec![
        track(0, "Morning Light", "Dawn", "Aurora"),
        track(1, "Evening Tide", "Dusk", "Aurora"),
        track(2, "Night Drive", "Neon", "Cityscape"),
    ])
}

fn text_of(search: &Search, i: usize) -> String {
    search.results()[i].segments.iter().map(|s| s.text.clone()).collect()
}

#[test]
fn empty_query_matches_everything_in_library_order() {
    let lib = library();
    let mut search = Search::default();
    search.run_query(&lib, "");
    // 2 artists, 3 albums, 3 tracks
    assert_eq!(search.results().len(), 8);
    assert_eq!(search.selected(), Some(0));
    assert_eq!(search.query(), "");
    assert!(search.results().iter().all(|r| r.score == 0));
    assert!(matches!(search.results()[0].item, SearchItem::Artist(_)));
    assert_eq!(text_of(&search, 0), "Aurora");
    assert!(matches!(search.results()[2].item, SearchItem::Album(_, _)));
    assert_eq!(text_of(&search, 2), "Dawn");
    assert!(matches!(search.results()[5].item, SearchItem::Track(_)));
    assert_eq!(text_of(&search, 5), "Morning Light");
}

#[test]
fn query_without_match_gives_nothing() {
    let lib = library();
    let mut search = Search::default();
    search.run_query(&lib, "qqqzzzxx");
    assert_eq!(search.results().len(), 0);
    assert_eq!(search.selected(), None);
    assert!(search.selected_item().is_none());
}

#[test]
fn results_are_ranked_best_first_and_only_matches() {
    let lib = library();
    let mut search = Search::default();
    search.run_query(&lib, "night");
    assert!(!search.results().is_empty());
    let scores: Vec<u32> = search.results().iter().map(|r| r.score).collect();
    assert!(scores.windows(2).all(|w| w[0] >= w[1]));
    assert_eq!(text_of(&search, 0), "Night Drive");
    // the matched characters are marked
    let matched: String = search.results()[0]
        .segments
        .iter()
        .filter(|s| s.matched)
        .map(|s| s.text.clone())
        .collect();
    assert_eq!(matched.to_lowercase(), "night");
    match search.selected_item() {
        Some(SearchItem::Track(t)) => assert_eq!(t.id, 2),
        other => panic!("unexpected selection {other:?}"),
    }
}

#[test]
fn cursor_moves_within_results() {
    let lib = library();
    let mut search = Search::default();
    search.run_query(&lib, "");
    search.move_cursor(3);
    assert_eq!(search.selected(), Some(3));
    search.move_cursor(-10);
    assert_eq!(search.selected(), Some(0));
    search.move_cursor(100);
    assert_eq!(search.selected(), Some(7));
    let mut empty = Search::default();
    empty.move_cursor(1);
    assert_eq!(empty.selected(), None);
}

#[test]
fn item_accessors() {
    let t = Arc::new(track(5, "Title", "Album", "Artist"));
    let item = SearchItem::Track(t.clone());
    assert_eq!(item.album_artist(), &ArtistName::Artist("Artist".to_owned()));
    assert_eq!(item.album(), Some(&AlbumName(Some("Album".to_owned()))));
    assert_eq!(item.track_title().map(|s| s.as_str()), Some("Title"));
    let artist = SearchItem::Artist(ArtistName::Unknown);
    assert_eq!(artist.album(), None);
    assert_eq!(artist.track_title(), None);
    let result = SearchItem::Artist(ArtistName::Unknown).match_against("").unwrap();
    let text: String = result.segments.iter().map(|s| s.text.clone()).collect();
    assert_eq!(text, "<unknown>");
    assert!(SearchItem::Artist(ArtistName::Unknown).match_against("zzz").is_none());
}
