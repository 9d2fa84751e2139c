use deimos::library::{AlbumName, ArtistName, Library, Track};
use deimos::ui::substring_search::{Search, SearchResult};

fn track(id: u64, title: Option<&str>, album: Option<&str>, artist: Option<&str>) -> Track {
    Track {
        id,
        number: Some(id as u32),
        path: format!("/{id}.mp3"),
        title: title.map(|t| t.to_owned()),
        album: AlbumName(album.map(|a| a.to_owned())),
        artist: ArtistName::from_option(artist.map(|a| a.to_owned())),
        length: 1000,
    }
}

#[test]
fn finds_names_ignoring_case_artists_first() {
    let library = Library::from_tracks(vec![
        track(0, Some("Blue Moon"), Some("Moonlight"), Some("The Moons")),
        track(1, Some("Sunrise"), None, None),
        track(2, None, Some("Other"), Some("Someone")),
    ]);
    let mut search = Search::default();
    search.run_query(&library, "MOON");
    assert_eq!(search.query(), "MOON");
    let kinds: Vec<&str> = search
        .results()
        .iter()
        .map(|r| match r {
            SearchResult::Artist(_) => "artist",
            SearchResult::Album(_, _) => "album",
            SearchResult::Track(_) => "track",
        })
        .collect();
    assert_eq!(kinds, vec!["artist", "album", "track"]);
    match search.selected_result() {
        Some(SearchResult::Artist(a)) => assert_eq!(a, ArtistName::Artist("The Moons".to_owned())),
        other => panic!("unexpected {other:?}"),
    }
    search.run_query(&library, "unknown");
    assert!(search.results().is_empty(), "unnamed things never match");
    assert!(search.selected_result().is_none());
    search.run_query(&library, "");
    assert_eq!(search.results().len(), 2 + 2 + 2);
}

#[test]
fn result_accessors() {
    let r = SearchResult::Album(AlbumName(Some("A".to_owned())), ArtistName::Unknown);
    assert_eq!(r.album_artist(), &ArtistName::Unknown);
    assert_eq!(r.album(), Some(&AlbumName(Some("A".to_owned()))));
    assert_eq!(r.track_title(), None);
}
