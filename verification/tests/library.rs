use deimos::library::{AlbumName, ArtistName, Library, Track, normalize};

#[test]
fn equal_test_track_ids_are_equal() {
    assert_eq!(Track::test_track(0), Track::test_track(0));
    assert_eq!(Track::test_track(1), Track::test_track(1));
}

#[test]
fn unequal_test_track_ids_are_unequal() {
    assert_ne!(Track::test_track(0), Track::test_track(1));
}

fn track(id: u64, number: Option<u32>, album: &str, artist: &str) -> Track {
    Track {
        id,
        number,
        path: format!("/{id}.mp3"),
        title: Some(format!("Song {id}")),
        album: AlbumName(Some(album.to_owned())),
        artist: ArtistName::Artist(artist.to_owned()),
        length: 1000,
    }
}

#[test]
fn test_track_fields() {
    let t = Track::test_track(12);
    assert_eq!(t.path, "/12.mp3");
    assert_eq!(t.title.as_deref(), Some("Test track 12"));
    assert_eq!(t.number, Some(12));
    assert_eq!(t.length, 200_000);
    assert_eq!(t.mpris_id(), "/12");
}

#[test]
fn insert_groups_by_artist_and_album_and_orders_by_number() {
    let mut library = Library::new();
    library.insert_track(track(0, Some(3), "A", "X"));
    library.insert_track(track(1, Some(1), "A", "X"));
    library.insert_track(track(2, None, "A", "X"));
    library.insert_track(track(3, Some(1), "B", "X"));
    library.insert_track(track(4, Some(1), "A", "Y"));
    library.insert_track(track(5, Some(1), "A", "X"));
    let artists = library.artists();
    assert_eq!(artists.len(), 2);
    assert_eq!(artists[0].name, ArtistName::Artist("X".to_owned()));
    assert_eq!(artists[0].albums.len(), 2);
    let ids: Vec<u64> = artists[0].albums[0].tracks.iter().map(|t| t.id).collect();
    // no number first, then by number; equal numbers keep their order
    assert_eq!(ids, vec![2, 1, 5, 0]);
    assert_eq!(library.albums().len(), 3);
    let all: Vec<u64> = library.tracks().iter().map(|t| t.id).collect();
    assert_eq!(all, vec![2, 1, 5, 0, 3, 4]);
    let pairs = library.albums_with_artist();
    assert_eq!(pairs[2].1.name, ArtistName::Artist("Y".to_owned()));
}

#[test]
fn from_tracks_inserts_every_track() {
    let library = Library::from_tracks(vec![track(0, Some(2), "A", "X"), track(1, Some(1), "A", "X")]);
    let ids: Vec<u64> = library.tracks().iter().map(|t| t.id).collect();
    assert_eq!(ids, vec![1, 0]);
}

#[test]
fn normalize_replaces_curly_quotes() {
    assert_eq!(normalize("\u{2018}hi\u{2019} \u{201c}there\u{201d}"), "'hi' \"there\"");
    assert_eq!(normalize("plain"), "plain");
}

#[test]
fn names_display() {
    assert_eq!(ArtistName::Unknown.display(), "<unknown>");
    assert_eq!(ArtistName::Artist("Me".to_owned()).display(), "Me");
    assert_eq!(AlbumName(None).display(), "<unknown>");
    assert_eq!(ArtistName::from_option(None), ArtistName::Unknown);
    assert!(ArtistName::Unknown.less(&ArtistName::Artist("a".to_owned())));
    assert!(AlbumName(Some("a".to_owned())).less(&AlbumName(Some("b".to_owned()))));
}

#[test]
fn from_tags_prefers_album_artist_and_normalizes() {
    let t = Track::from_tags(
        3,
        Some(4),
        "/x.flac".to_owned(),
        Some("It\u{2019}s".to_owned()),
        None,
        Some("Band".to_owned()),
        Some("Singer".to_owned()),
        5000,
    );
    assert_eq!(t.title.as_deref(), Some("It's"));
    assert_eq!(t.artist, ArtistName::Artist("Band".to_owned()));
    assert_eq!(t.album, AlbumName(None));
    let u = Track::from_tags(4, None, "/y".to_owned(), None, None, None, Some("Singer".to_owned()), 0);
    assert_eq!(u.artist, ArtistName::Artist("Singer".to_owned()));
    assert!(t.same(&t.clone()));
    assert!(!t.same(&u));
}

#[test]
fn saving_and_loading_keeps_the_tracks() {
    let library = Library::from_tracks(vec![
        track(0, Some(2), "A", "X"),
        track(1, None, "B", "Y"),
        track(2, Some(1), "A", "X"),
    ]);
    let saved: Vec<Track> = library.tracks().iter().map(|t| Track::clone(t)).collect();
    let loaded = Library::from_tracks(saved.clone());
    let mut before: Vec<u64> = saved.iter().map(|t| t.id).collect();
    let mut after: Vec<u64> = loaded.tracks().iter().map(|t| t.id).collect();
    before.sort();
    after.sort();
    assert_eq!(before, after);
    assert_eq!(loaded.tracks().len(), 3);
}

fn layout(library: &Library) -> Vec<(ArtistName, Vec<(AlbumName, Vec<u64>)>)> {
    library
        .artists()
        .iter()
        .map(|a| (a.name.clone(), a.albums.iter().map(|al| (al.name.clone(), al.tracks.iter().map(|t| t.id).collect())).collect()))
        .collect()
}

#[test]
fn saving_and_loading_gives_the_same_library() {
    let library = Library::from_tracks(vec![
        track(0, Some(2), "A", "X"),
        track(1, None, "B", "Y"),
        track(2, Some(1), "A", "X"),
        track(3, Some(1), "C", "X"),
        track(4, Some(1), "A", "X"),
    ]);
    let saved: Vec<Track> = library.tracks().iter().map(|t| Track::clone(t)).collect();
    let loaded = Library::from_tracks(saved);
    assert_eq!(layout(&loaded), layout(&library));
    assert_eq!(
        layout(&library),
        vec![
            (
                ArtistName::Artist("X".to_owned()),
                vec![
                    (AlbumName(Some("A".to_owned())), vec![2, 4, 0]),
                    (AlbumName(Some("C".to_owned())), vec![3]),
                ]
            ),
            (ArtistName::Artist("Y".to_owned()), vec![(AlbumName(Some("B".to_owned())), vec![1])]),
        ]
    );
}
