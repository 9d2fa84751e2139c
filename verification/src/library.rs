//! The music library: artists, their albums, and the albums' tracks.
use std::sync::Arc;
use vstd::prelude::*;
use crate::mimi::text::{push_char, push_str, str_chars};
use crate::order::{name_lt, option_chars};
use crate::text::{concat, decimal, decimal_string, owned};

verus! {

/// The name of an artist. Intentionally *not* `Option<String>` so that
/// "Various Artists" can be supported later.
#[derive(Clone, Debug, PartialEq, Eq, PartialOrd, Ord, Hash)]
pub enum ArtistName {
    Unknown,
    Artist(String),
}

/// The name of an album, if it has one.
#[derive(Clone, Debug, PartialEq, Eq, PartialOrd, Ord, Hash)]
pub struct AlbumName(pub Option<String>);

impl View for ArtistName {
    type V = Option<Seq<char>>;

    open spec fn view(&self) -> Option<Seq<char>> {
        match self {
            ArtistName::Unknown => None,
            ArtistName::Artist(s) => Some(s@),
        }
    }
}

impl View for AlbumName {
    type V = Option<Seq<char>>;

    open spec fn view(&self) -> Option<Seq<char>> {
        option_chars(self.0)
    }
}

/// `<unknown>`, the text shown for a missing name.
pub open spec fn unknown_text() -> Seq<char> {
    seq!['<', 'u', 'n', 'k', 'n', 'o', 'w', 'n', '>']
}

/// The text shown for a name: the name itself, or `<unknown>`.
pub open spec fn display_name(n: Option<Seq<char>>) -> Seq<char> {
    match n {
        Some(s) => s,
        None => unknown_text(),
    }
}

fn unknown_string() -> (s: String)
    ensures
        s@ == unknown_text(),
{
    let mut s = String::new();
    push_char(&mut s, '<');
    push_char(&mut s, 'u');
    push_char(&mut s, 'n');
    push_char(&mut s, 'k');
    push_char(&mut s, 'n');
    push_char(&mut s, 'o');
    push_char(&mut s, 'w');
    push_char(&mut s, 'n');
    push_char(&mut s, '>');
    assert(s@ =~= unknown_text());
    s
}

impl ArtistName {
    /// The name as shown to the user: the name itself, or `<unknown>`.
    pub fn display(&self) -> (s: String)
        ensures
            s@ == display_name(self@),
    {
        match self {
            ArtistName::Unknown => unknown_string(),
            ArtistName::Artist(name) => name.clone(),
        }
    }

    /// `Unknown` for `None`, the name otherwise.
    pub fn from_option(value: Option<String>) -> (a: ArtistName)
        ensures
            a@ == option_chars(value),
            a == (match value {
                Some(s) => ArtistName::Artist(s),
                None => ArtistName::Unknown,
            }),
    {
        match value {
            Some(s) => ArtistName::Artist(s),
            None => ArtistName::Unknown,
        }
    }

    /// Whether the two names are the same.
    pub fn same(&self, other: &ArtistName) -> (b: bool)
        ensures
            b == (self@ == other@),
    {
        match (self, other) {
            (ArtistName::Unknown, ArtistName::Unknown) => true,
            (ArtistName::Artist(a), ArtistName::Artist(b)) => *a == *b,
            _ => false,
        }
    }

    /// Whether this name sorts before `other` (unknown first, then by name).
    pub fn less(&self, other: &ArtistName) -> (b: bool)
        ensures
            b == name_lt(self@, other@),
    {
        crate::order::name_less(&self.as_option(), &other.as_option())
    }

    fn as_option(&self) -> (o: Option<String>)
        ensures
            option_chars(o) == self@,
    {
        match self {
            ArtistName::Unknown => None,
            ArtistName::Artist(s) => Some(s.clone()),
        }
    }
}

impl AlbumName {
    /// The name as shown to the user: the name itself, or `<unknown>`.
    pub fn display(&self) -> (s: String)
        ensures
            s@ == display_name(self@),
    {
        match &self.0 {
            None => unknown_string(),
            Some(name) => name.clone(),
        }
    }

    /// Whether the two names are the same.
    pub fn same(&self, other: &AlbumName) -> (b: bool)
        ensures
            b == (self@ == other@),
    {
        match (&self.0, &other.0) {
            (None, None) => true,
            (Some(a), Some(b)) => *a == *b,
            _ => false,
        }
    }

    /// Whether this name sorts before `other` (no name first, then by name).
    pub fn less(&self, other: &AlbumName) -> (b: bool)
        ensures
            b == name_lt(self@, other@),
    {
        crate::order::name_less(&self.0, &other.0)
    }
}

impl From<Option<String>> for ArtistName {
    fn from(value: Option<String>) -> ArtistName {
        ArtistName::from_option(value)
    }
}

impl vstd::std_specs::convert::FromSpecImpl<Option<String>> for ArtistName {
    open spec fn obeys_from_spec() -> bool {
        true
    }

    open spec fn from_spec(value: Option<String>) -> ArtistName {
        match value {
            Some(s) => ArtistName::Artist(s),
            None => ArtistName::Unknown,
        }
    }
}

impl From<Option<String>> for AlbumName {
    fn from(value: Option<String>) -> AlbumName {
        AlbumName(value)
    }
}

impl vstd::std_specs::convert::FromSpecImpl<Option<String>> for AlbumName {
    open spec fn obeys_from_spec() -> bool {
        true
    }

    open spec fn from_spec(value: Option<String>) -> AlbumName {
        AlbumName(value)
    }
}

/// A single track of the library.
#[derive(Clone, Debug, PartialEq, Eq)]
pub struct Track {
    /// Arbitrary numeric ID, unique within a library.
    pub id: u64,
    pub number: Option<u32>,
    pub path: String,
    pub title: Option<String>,
    pub album: AlbumName,
    pub artist: ArtistName,
    /// Length of the track in milliseconds.
    pub length: u64,
}

/// `/`, the path of the MPRIS object of track `id`, and its decimal digits.
pub open spec fn mpris_path(id: u64) -> Seq<char> {
    seq!['/'] + decimal(id as nat)
}

/// The fields of [`Track::test_track`].
pub open spec fn test_track_title(id: u64) -> Seq<char> {
    "Test track "@ + decimal(id as nat)
}

impl Track {
    /// The object path used to identify the track over MPRIS: `/` followed by
    /// the id.
    pub fn mpris_id(&self) -> (s: String)
        ensures
            s@ == mpris_path(self.id),
    {
        let mut s = String::new();
        push_char(&mut s, '/');
        let digits = decimal_string(self.id);
        push_str(&mut s, &digits);
        s
    }

    /// A test track with all of the fields set. `test_track(i) ==
    /// test_track(j)` iff `i == j`.
    pub fn test_track(id: u64) -> (t: Track)
        ensures
            t.id == id,
            t.number == Some(id as u32),
            t.path@ == seq!['/'] + decimal(id as nat) + ".mp3"@,
            t.title matches Some(title) && title@ == test_track_title(id),
            t.album@ == Some("Test album"@),
            t.artist@ == Some("Test artist"@),
            t.length == 200_000,
    {
        let digits = decimal_string(id);
        let mut path = String::new();
        push_char(&mut path, '/');
        push_str(&mut path, &digits);
        push_str(&mut path, &owned(".mp3"));
        let title = concat(&owned("Test track "), &digits);
        Track {
            id,
            number: Some(id as u32),
            path,
            title: Some(title),
            album: AlbumName(Some(owned("Test album"))),
            artist: ArtistName::Artist(owned("Test artist")),
            length: 200_000,
        }
    }
}

/// Replaces the typographic quotes that fuzzy matching does not handle:
/// `‘` and `’` become `'`, `“` and `”` become `"`.
pub open spec fn normalize_char(c: char) -> char {
    if c == '\u{2018}' || c == '\u{2019}' {
        '\''
    } else if c == '\u{201c}' || c == '\u{201d}' {
        '"'
    } else {
        c
    }
}

/// String normalization: removes characters fuzzy matching doesn't handle.
pub fn normalize(s: &str) -> (t: String)
    ensures
        t@ == s@.map_values(|c: char| normalize_char(c)),
{
    let chars = str_chars(s);
    let mut t = String::new();
    let mut i: usize = 0;
    while i < chars.len()
        invariant
            0 <= i <= chars.len(),
            chars@ == s@,
            t@ == chars@.take(i as int).map_values(|c: char| normalize_char(c)),
        decreases chars.len() - i,
    {
        let c = chars[i];
        let d = if c == '\u{2018}' || c == '\u{2019}' {
            '\''
        } else if c == '\u{201c}' || c == '\u{201d}' {
            '"'
        } else {
            c
        };
        push_char(&mut t, d);
        i = i + 1;
        assert(t@ =~= chars@.take(i as int).map_values(|c: char| normalize_char(c)));
    }
    assert(chars@.take(chars.len() as int) =~= chars@);
    t
}


/// Two tracks hold the same values.
pub open spec fn same_track(a: Track, b: Track) -> bool {
    &&& a.id == b.id
    &&& a.number == b.number
    &&& a.path@ == b.path@
    &&& option_chars(a.title) == option_chars(b.title)
    &&& a.album@ == b.album@
    &&& a.artist@ == b.artist@
    &&& a.length == b.length
}

impl Track {
    /// Whether the two tracks hold the same values, field by field.
    pub fn same(&self, other: &Track) -> (b: bool)
        ensures
            b == same_track(*self, *other),
    {
        let title_same = match (&self.title, &other.title) {
            (None, None) => true,
            (Some(x), Some(y)) => *x == *y,
            _ => false,
        };
        self.id == other.id && self.number == other.number && self.path == other.path && title_same
            && self.album.same(&other.album) && self.artist.same(&other.artist) && self.length == other.length
    }

    /// Builds a track from what its tags say: the album artist is preferred
    /// over the track artist, and title, album and artist are normalized.
    pub fn from_tags(
        id: u64,
        number: Option<u32>,
        path: String,
        title: Option<String>,
        album: Option<String>,
        album_artist: Option<String>,
        track_artist: Option<String>,
        length: u64,
    ) -> (t: Track)
        ensures
            t.id == id,
            t.number == number,
            t.path == path,
            option_chars(t.title) == normalized(option_chars(title)),
            t.album@ == normalized(option_chars(album)),
            t.artist@ == normalized(
                if album_artist is Some {
                    option_chars(album_artist)
                } else {
                    option_chars(track_artist)
                },
            ),
            t.length == length,
    {
        let artist = match album_artist {
            Some(a) => Some(a),
            None => track_artist,
        };
        Track {
            id,
            number,
            path,
            title: normalize_option(&title),
            album: AlbumName(normalize_option(&album)),
            artist: ArtistName::from_option(normalize_option(&artist)),
            length,
        }
    }
}

/// The normalized form of an optional string.
pub open spec fn normalized(o: Option<Seq<char>>) -> Option<Seq<char>> {
    match o {
        Some(s) => Some(s.map_values(|c: char| normalize_char(c))),
        None => None,
    }
}

fn normalize_option(o: &Option<String>) -> (r: Option<String>)
    ensures
        option_chars(r) == normalized(option_chars(*o)),
{
    match o {
        Some(s) => Some(normalize(s.as_str())),
        None => None,
    }
}

/// Information about an album from a single artist: its tracks, ordered by
/// track number (tracks without a number first).
#[derive(Clone, Debug)]
pub struct Album {
    pub name: AlbumName,
    pub tracks: Vec<Arc<Track>>,
}

/// Information about an individual artist and their albums.
#[derive(Clone, Debug)]
pub struct Artist {
    pub name: ArtistName,
    pub albums: Vec<Album>,
}

/// Stores information about the library as a whole.
#[derive(Clone, Debug)]
pub struct Library {
    pub artists: Vec<Artist>,
}

impl Album {
    /// An album with no tracks.
    pub fn new(name: AlbumName) -> (a: Album)
        ensures
            a.name == name,
            a.tracks@.len() == 0,
    {
        Album { name, tracks: Vec::new() }
    }
}

impl Artist {
    /// An artist with no albums.
    pub fn new(name: ArtistName) -> (a: Artist)
        ensures
            a.name == name,
            a.albums@.len() == 0,
    {
        Artist { name, albums: Vec::new() }
    }
}

/// Track numbers in sorting order: tracks without a number first, then by
/// number.
pub open spec fn number_le(a: Option<u32>, b: Option<u32>) -> bool {
    match (a, b) {
        (None, _) => true,
        (Some(_), None) => false,
        (Some(x), Some(y)) => x <= y,
    }
}

fn number_le_exec(a: Option<u32>, b: Option<u32>) -> (r: bool)
    ensures
        r == number_le(a, b),
{
    match (a, b) {
        (None, _) => true,
        (Some(_), None) => false,
        (Some(x), Some(y)) => x <= y,
    }
}

/// The tracks are ordered by number.
pub open spec fn sorted_by_number(tracks: Seq<Arc<Track>>) -> bool {
    forall|i: int, j: int|
        0 <= i < j < tracks.len() ==> number_le(#[trigger] tracks[i].number, #[trigger] tracks[j].number)
}

/// Every track of the album belongs to it and to the artist, and the tracks
/// are in order.
pub open spec fn album_wf(album: Album, artist: ArtistName) -> bool {
    &&& sorted_by_number(album.tracks@)
    &&& forall|i: int|
        0 <= i < album.tracks@.len() ==> (#[trigger] album.tracks@[i]).album@ == album.name@
            && album.tracks@[i].artist@ == artist@
}

/// The artist's albums have distinct names and are well formed.
pub open spec fn artist_wf(artist: Artist) -> bool {
    &&& forall|i: int, j: int|
        0 <= i < j < artist.albums@.len() ==> (#[trigger] artist.albums@[i]).name@
            != (#[trigger] artist.albums@[j]).name@
    &&& forall|i: int|
        0 <= i < artist.albums@.len() ==> album_wf(#[trigger] artist.albums@[i], artist.name)
}

/// Where a track goes in an album's tracks: after every track whose number
/// is not greater.
pub open spec fn insertion_point(tracks: Seq<Arc<Track>>, number: Option<u32>, p: int) -> bool {
    &&& 0 <= p <= tracks.len()
    &&& forall|k: int| 0 <= k < p ==> number_le((#[trigger] tracks[k]).number, number)
    &&& forall|k: int| p <= k < tracks.len() ==> !number_le((#[trigger] tracks[k]).number, number)
}

/// `a` is the position of the artist named `name`, or the number of artists
/// if there is none.
pub open spec fn artist_index(artists: Seq<Artist>, name: Option<Seq<char>>, a: int) -> bool {
    ||| 0 <= a < artists.len() && artists[a].name@ == name
    ||| a == artists.len() && forall|i: int| 0 <= i < artists.len() ==> (#[trigger] artists[i]).name@ != name
}

/// `b` is the position of the album named `name`, or the number of albums
/// if there is none.
pub open spec fn album_index(albums: Seq<Album>, name: Option<Seq<char>>, b: int) -> bool {
    ||| 0 <= b < albums.len() && albums[b].name@ == name
    ||| b == albums.len() && forall|i: int| 0 <= i < albums.len() ==> (#[trigger] albums[i]).name@ != name
}

/// The albums of artist `a`, none if there is no such artist yet.
pub open spec fn albums_at(artists: Seq<Artist>, a: int) -> Seq<Album> {
    if 0 <= a < artists.len() {
        artists[a].albums@
    } else {
        Seq::empty()
    }
}

/// The tracks of album `b`, none if there is no such album yet.
pub open spec fn tracks_at(albums: Seq<Album>, b: int) -> Seq<Arc<Track>> {
    if 0 <= b < albums.len() {
        albums[b].tracks@
    } else {
        Seq::empty()
    }
}

/// `new` is `old` with `track` inserted at position `p` of album `b` of
/// artist `a` (positions found by name; a new artist or album goes at the
/// end), everything else unchanged.
pub open spec fn inserted_at(old: Seq<Artist>, new: Seq<Artist>, track: Track, a: int, b: int, p: int) -> bool {
    let old_albums = albums_at(old, a);
    let old_tracks = tracks_at(old_albums, b);
    &&& artist_index(old, track.artist@, a)
    &&& album_index(old_albums, track.album@, b)
    &&& insertion_point(old_tracks, track.number, p)
    &&& new.len() == (if a < old.len() { old.len() } else { old.len() + 1 })
    &&& forall|i: int| 0 <= i < old.len() && i != a ==> #[trigger] new[i] == old[i]
    &&& new[a].name@ == track.artist@
    &&& new[a].albums@.len() == (if b < old_albums.len() { old_albums.len() } else { old_albums.len() + 1 })
    &&& forall|j: int| 0 <= j < old_albums.len() && j != b ==> #[trigger] new[a].albums@[j] == old_albums[j]
    &&& new[a].albums@[b].name@ == track.album@
    &&& new[a].albums@[b].tracks@.len() == old_tracks.len() + 1
    &&& forall|k: int| 0 <= k < p ==> #[trigger] new[a].albums@[b].tracks@[k] == old_tracks[k]
    &&& *new[a].albums@[b].tracks@[p] == track
    &&& forall|k: int| p < k <= old_tracks.len() ==> #[trigger] new[a].albums@[b].tracks@[k] == old_tracks[k - 1]
}

/// An album as plain values: its name and its tracks, in order.
pub type AlbumShape = (Option<Seq<char>>, Seq<Track>);

/// An artist as plain values: their name and albums, in order.
pub type ArtistShape = (Option<Seq<char>>, Seq<AlbumShape>);

pub open spec fn album_shape(album: Album) -> AlbumShape {
    (album.name@, track_values(album.tracks@))
}

pub open spec fn artist_shape(artist: Artist) -> ArtistShape {
    (artist.name@, artist.albums@.map_values(|al: Album| album_shape(al)))
}

/// A library as plain values: the artists, their albums and the albums'
/// tracks, each in order.
pub open spec fn library_shape(artists: Seq<Artist>) -> Seq<ArtistShape> {
    artists.map_values(|a: Artist| artist_shape(a))
}

/// The position of the first entry named `name`, or the number of entries
/// if there is none.
pub open spec fn find_name<V>(s: Seq<(Option<Seq<char>>, V)>, name: Option<Seq<char>>) -> int
    decreases s.len(),
{
    if s.len() == 0 {
        0
    } else if s[0].0 == name {
        0
    } else {
        1 + find_name(s.drop_first(), name)
    }
}

/// Where a track numbered `number` goes: before the first track whose
/// number is greater, or at the end.
pub open spec fn insert_pos(tracks: Seq<Track>, number: Option<u32>) -> int
    decreases tracks.len(),
{
    if tracks.len() == 0 {
        0
    } else if !number_le(tracks[0].number, number) {
        0
    } else {
        1 + insert_pos(tracks.drop_first(), number)
    }
}

/// The library `s` with `track` added under its artist and album (each
/// created at the end if missing), after the tracks whose number is not
/// greater.
pub open spec fn insert_shape(s: Seq<ArtistShape>, track: Track) -> Seq<ArtistShape> {
    let a = find_name(s, track.artist@);
    let albums = if a < s.len() { s[a].1 } else { Seq::empty() };
    let b = find_name(albums, track.album@);
    let tracks = if b < albums.len() { albums[b].1 } else { Seq::empty() };
    let new_album = (track.album@, tracks.insert(insert_pos(tracks, track.number), track));
    let new_albums = if b < albums.len() { albums.update(b, new_album) } else { albums.push(new_album) };
    let new_artist = (track.artist@, new_albums);
    if a < s.len() { s.update(a, new_artist) } else { s.push(new_artist) }
}

/// `s` with the tracks `ts` added one after another.
pub open spec fn insert_all(s: Seq<ArtistShape>, ts: Seq<Track>) -> Seq<ArtistShape>
    decreases ts.len(),
{
    if ts.len() == 0 {
        s
    } else {
        insert_shape(insert_all(s, ts.drop_last()), ts.last())
    }
}

/// The library built from the tracks `ts`, added one after another.
pub open spec fn build_shape(ts: Seq<Track>) -> Seq<ArtistShape> {
    insert_all(Seq::empty(), ts)
}

proof fn lemma_find_name<V>(s: Seq<(Option<Seq<char>>, V)>, name: Option<Seq<char>>)
    ensures
        0 <= find_name(s, name) <= s.len(),
        forall|i: int| 0 <= i < find_name(s, name) ==> (#[trigger] s[i]).0 != name,
        find_name(s, name) < s.len() ==> s[find_name(s, name)].0 == name,
    decreases s.len(),
{
    if s.len() > 0 && s[0].0 != name {
        lemma_find_name(s.drop_first(), name);
        assert forall|i: int| 0 <= i < find_name(s, name) implies (#[trigger] s[i]).0 != name by {
            if i > 0 {
                assert(s[i] == s.drop_first()[i - 1]);
            }
        }
    }
}

proof fn lemma_insert_pos(tracks: Seq<Track>, number: Option<u32>)
    ensures
        0 <= insert_pos(tracks, number) <= tracks.len(),
        forall|k: int| 0 <= k < insert_pos(tracks, number) ==> number_le((#[trigger] tracks[k]).number, number),
        insert_pos(tracks, number) < tracks.len() ==> !number_le(tracks[insert_pos(tracks, number)].number, number),
    decreases tracks.len(),
{
    if tracks.len() > 0 && number_le(tracks[0].number, number) {
        lemma_insert_pos(tracks.drop_first(), number);
        assert forall|k: int| 0 <= k < insert_pos(tracks, number) implies number_le((#[trigger] tracks[k]).number, number) by {
            if k > 0 {
                assert(tracks[k] == tracks.drop_first()[k - 1]);
            }
        }
    }
}

/// The first entry named `name` is at `i` when `i` has that name and no
/// other entry does.
proof fn lemma_find_unique<V>(s: Seq<(Option<Seq<char>>, V)>, name: Option<Seq<char>>, i: int)
    requires
        (0 <= i < s.len() && s[i].0 == name) || i == s.len(),
        forall|j: int| 0 <= j < s.len() && j != i ==> (#[trigger] s[j]).0 != name,
    ensures
        find_name(s, name) == i,
{
    lemma_find_name(s, name);
    let r = find_name(s, name);
    if r < i {
        assert(s[r].0 == name);
    } else if r > i {
        assert(s[i].0 != name);
    }
}

/// An insertion into a well-formed library, seen as plain values.
proof fn lemma_inserted_shape(old: Seq<Artist>, new: Seq<Artist>, track: Track, a: int, b: int, p: int)
    requires
        inserted_at(old, new, track, a, b, p),
        forall|i: int, j: int| 0 <= i < j < old.len() ==> (#[trigger] old[i]).name@ != (#[trigger] old[j]).name@,
        forall|i: int| 0 <= i < old.len() ==> artist_wf(#[trigger] old[i]),
    ensures
        library_shape(new) == insert_shape(library_shape(old), track),
{
    let s = library_shape(old);
    let old_albums = albums_at(old, a);
    let old_tracks = tracks_at(old_albums, b);
    assert forall|j: int| 0 <= j < s.len() && j != a implies (#[trigger] s[j]).0 != track.artist@ by {
        assert(s[j].0 == old[j].name@);
        if a < old.len() {
            assert(old[a].name@ == track.artist@);
        }
    }
    lemma_find_unique(s, track.artist@, a);
    let albums = if a < s.len() { s[a].1 } else { Seq::empty() };
    assert(albums =~= old_albums.map_values(|al: Album| album_shape(al)));
    assert forall|j: int| 0 <= j < albums.len() && j != b implies (#[trigger] albums[j]).0 != track.album@ by {
        assert(albums[j].0 == old_albums[j].name@);
        assert(artist_wf(old[a]));
        if b < old_albums.len() {
            assert(old_albums[b].name@ == track.album@);
        }
    }
    lemma_find_unique(albums, track.album@, b);
    let tracks = if b < albums.len() { albums[b].1 } else { Seq::<Track>::empty() };
    assert(tracks =~= track_values(old_tracks));
    lemma_insert_pos(tracks, track.number);
    let q = insert_pos(tracks, track.number);
    if q < p {
        assert(number_le(old_tracks[q].number, track.number));
    } else if q > p {
        assert(number_le(tracks[p].number, track.number));
        assert(!number_le(old_tracks[p].number, track.number));
    }
    let new_tracks = tracks.insert(p, track);
    assert(track_values(new[a].albums@[b].tracks@) =~= new_tracks);
    let new_album = (track.album@, new_tracks);
    assert(album_shape(new[a].albums@[b]) == new_album);
    let new_albums = if b < albums.len() { albums.update(b, new_album) } else { albums.push(new_album) };
    assert(new[a].albums@.map_values(|al: Album| album_shape(al)) =~= new_albums) by {
        assert forall|j: int| 0 <= j < new_albums.len() implies new[a].albums@.map_values(|al: Album| album_shape(al))[j] == #[trigger] new_albums[j] by {
            if j != b {
                assert(new[a].albums@[j] == old_albums[j]);
            }
        }
    }
    assert(artist_shape(new[a]) == (track.artist@, new_albums));
    assert(library_shape(new) =~= insert_shape(s, track)) by {
        let expected = insert_shape(s, track);
        assert forall|i: int| 0 <= i < new.len() implies library_shape(new)[i] == #[trigger] expected[i] by {
            if i != a {
                assert(new[i] == old[i]);
            }
        }
    }
}

impl Library {
    /// Artists have distinct names and are well formed.
    pub open spec fn wf(self) -> bool {
        &&& forall|i: int, j: int|
            0 <= i < j < self.artists@.len() ==> (#[trigger] self.artists@[i]).name@
                != (#[trigger] self.artists@[j]).name@
        &&& forall|i: int| 0 <= i < self.artists@.len() ==> artist_wf(#[trigger] self.artists@[i])
    }

    /// An empty library.
    pub fn new() -> (l: Library)
        ensures
            l.wf(),
            l.artists@.len() == 0,
    {
        Library { artists: Vec::new() }
    }

    /// Adds a track under its artist and album, creating them if needed,
    /// and keeps the album's tracks ordered by number (a track goes after
    /// the tracks whose number is not greater).
    pub fn insert_track(&mut self, track: Track)
        requires
            old(self).wf(),
        ensures
            final(self).wf(),
            exists|a: int, b: int, p: int| #[trigger]
                inserted_at(old(self).artists@, final(self).artists@, track, a, b, p),
            artists_values(final(self).artists@).to_multiset() == artists_values(old(self).artists@).to_multiset().insert(track),
            library_shape(final(self).artists@) == insert_shape(library_shape(old(self).artists@), track),
    {
        let ghost lib0 = self.artists@;
        let a = self.find_or_add_artist(&track.artist);
        let ghost lib_a = self.artists@;
        let b = self.find_or_add_album(a, &track.album);
        let ghost lib1 = *self;
        proof {
            assert(albums_at(lib0, a as int) == lib_a[a as int].albums@);
            assert(tracks_at(lib_a[a as int].albums@, b as int) == lib1.artists@[a as int].albums@[b as int].tracks@);
        }
        let mut artist = self.artists.remove(a);
        let mut album = artist.albums.remove(b);
        let mut p: usize = 0;
        while p < album.tracks.len() && number_le_exec(album.tracks[p].number, track.number)
            invariant
                0 <= p <= album.tracks.len(),
                album == lib1.artists@[a as int].albums@[b as int],
                forall|k: int| 0 <= k < p ==> number_le((#[trigger] album.tracks@[k]).number, track.number),
            decreases album.tracks.len() - p,
        {
            p = p + 1;
        }
        let ghost old_tracks = album.tracks@;
        proof {
            assert(album_wf(album, artist.name));
            assert forall|k: int| p <= k < old_tracks.len() implies !number_le(
                (#[trigger] old_tracks[k]).number,
                track.number,
            ) by {
                if number_le(old_tracks[k].number, track.number) {
                    assert(number_le(old_tracks[p as int].number, old_tracks[k].number));
                }
            }
        }
        let t = Arc::new(track);
        album.tracks.insert(p, t);
        proof {
            assert(album.tracks@ =~= old_tracks.insert(p as int, t));
            assert forall|i: int, j: int|
                0 <= i < j < album.tracks@.len() implies number_le(
                #[trigger] album.tracks@[i].number,
                #[trigger] album.tracks@[j].number,
            ) by {
                if i < p && j < p {
                    assert(album.tracks@[i] == old_tracks[i] && album.tracks@[j] == old_tracks[j]);
                } else if i < p && j > p {
                    assert(album.tracks@[i] == old_tracks[i] && album.tracks@[j] == old_tracks[j - 1]);
                } else if i > p {
                    assert(album.tracks@[i] == old_tracks[i - 1] && album.tracks@[j] == old_tracks[j - 1]);
                } else if i == p {
                    assert(album.tracks@[j] == old_tracks[j - 1]);
                } else {
                    assert(album.tracks@[i] == old_tracks[i]);
                }
            }
            assert forall|i: int| 0 <= i < album.tracks@.len() implies (#[trigger] album.tracks@[i]).album@
                == album.name@ && album.tracks@[i].artist@ == artist.name@ by {
                if i < p {
                    assert(album.tracks@[i] == old_tracks[i]);
                } else if i > p {
                    assert(album.tracks@[i] == old_tracks[i - 1]);
                }
            }
            assert(album_wf(album, artist.name));
        }
        let ghost artist_albums = artist.albums@;
        artist.albums.insert(b, album);
        proof {
            assert(artist.albums@ =~= lib1.artists@[a as int].albums@.update(b as int, album));
            let oldest = lib1.artists@[a as int];
            assert(artist_wf(oldest));
            assert forall|i: int| 0 <= i < artist.albums@.len() implies album_wf(
                #[trigger] artist.albums@[i],
                artist.name,
            ) by {
                if i != b {
                    assert(artist.albums@[i] == oldest.albums@[i]);
                }
            }
            assert forall|i: int, j: int|
                0 <= i < j < artist.albums@.len() implies (#[trigger] artist.albums@[i]).name@
                != (#[trigger] artist.albums@[j]).name@ by {
                assert(artist.albums@[i].name == oldest.albums@[i].name);
                assert(artist.albums@[j].name == oldest.albums@[j].name);
            }
        }
        self.artists.insert(a, artist);
        proof {
            assert(self.artists@ =~= lib1.artists@.update(a as int, artist));
            assert forall|i: int, j: int|
                0 <= i < j < self.artists@.len() implies (#[trigger] self.artists@[i]).name@
                != (#[trigger] self.artists@[j]).name@ by {
                assert(self.artists@[i].name == lib1.artists@[i].name);
                assert(self.artists@[j].name == lib1.artists@[j].name);
            }
            assert forall|i: int| 0 <= i < self.artists@.len() implies artist_wf(
                #[trigger] self.artists@[i],
            ) by {
                if i != a {
                    assert(self.artists@[i] == lib1.artists@[i]);
                }
            }
            assert(self.artists@[a as int].albums@[b as int].tracks@[p as int] == t);
            assert(forall|j: int| 0 <= j < lib_a[a as int].albums@.len() && j != b ==> #[trigger] self.artists@[a as int].albums@[j] == lib_a[a as int].albums@[j]);
            assert(inserted_at(lib0, self.artists@, track, a as int, b as int, p as int));
            lemma_inserted_values(lib0, self.artists@, track, a as int, b as int, p as int);
            lemma_inserted_shape(lib0, self.artists@, track, a as int, b as int, p as int);
        }
    }

    /// The position of the artist with the given name, adding an artist
    /// with no albums at the end if there is none.
    fn find_or_add_artist(&mut self, name: &ArtistName) -> (a: usize)
        requires
            old(self).wf(),
        ensures
            final(self).wf(),
            artist_index(old(self).artists@, name@, a as int),
            a < final(self).artists@.len(),
            final(self).artists@[a as int].name@ == name@,
            a < old(self).artists@.len() ==> final(self).artists@ == old(self).artists@,
            a == old(self).artists@.len() ==> final(self).artists@.len() == old(self).artists@.len() + 1
                && final(self).artists@[a as int].albums@.len() == 0,
            forall|i: int| 0 <= i < old(self).artists@.len() ==> #[trigger] final(self).artists@[i]
                == old(self).artists@[i],
    {
        let mut i: usize = 0;
        while i < self.artists.len()
            invariant
                0 <= i <= self.artists.len(),
                self.artists@ == old(self).artists@,
                self.wf(),
                forall|k: int| 0 <= k < i ==> (#[trigger] self.artists@[k]).name@ != name@,
            decreases self.artists.len() - i,
        {
            if self.artists[i].name.same(name) {
                return i;
            }
            i = i + 1;
        }
        let artist = Artist::new(name.clone_name());
        self.artists.push(artist);
        proof {
            assert forall|i: int, j: int|
                0 <= i < j < self.artists@.len() implies (#[trigger] self.artists@[i]).name@
                != (#[trigger] self.artists@[j]).name@ by {
                if j == self.artists@.len() - 1 {
                    assert(self.artists@[i] == old(self).artists@[i]);
                } else {
                    assert(self.artists@[i] == old(self).artists@[i]);
                    assert(self.artists@[j] == old(self).artists@[j]);
                }
            }
            assert forall|i: int| 0 <= i < self.artists@.len() implies artist_wf(
                #[trigger] self.artists@[i],
            ) by {
                if i < old(self).artists@.len() {
                    assert(self.artists@[i] == old(self).artists@[i]);
                }
            }
        }
        self.artists.len() - 1
    }

    /// The position of the album with the given name among the albums of
    /// artist `a`, adding an album with no tracks if there is none.
    fn find_or_add_album(&mut self, a: usize, name: &AlbumName) -> (b: usize)
        requires
            old(self).wf(),
            a < old(self).artists@.len(),
        ensures
            final(self).wf(),
            album_index(old(self).artists@[a as int].albums@, name@, b as int),
            b < old(self).artists@[a as int].albums@.len() ==> final(self).artists@ == old(self).artists@,
            b == old(self).artists@[a as int].albums@.len() ==> final(self).artists@[a as int].albums@.len()
                == old(self).artists@[a as int].albums@.len() + 1
                && final(self).artists@[a as int].albums@[b as int].tracks@.len() == 0,
            final(self).artists@.len() == old(self).artists@.len(),
            b < final(self).artists@[a as int].albums@.len(),
            final(self).artists@[a as int].albums@[b as int].name@ == name@,
            final(self).artists@[a as int].name == old(self).artists@[a as int].name,
            forall|i: int| 0 <= i < old(self).artists@.len() && i != a ==> #[trigger] final(self).artists@[i] == old(self).artists@[i],
            forall|j: int|
                0 <= j < old(self).artists@[a as int].albums@.len() ==> #[trigger] final(self).artists@[a as int].albums@[j] == old(self).artists@[a as int].albums@[j],
    {
        let mut j: usize = 0;
        while j < self.artists[a].albums.len()
            invariant
                0 <= j <= self.artists@[a as int].albums@.len(),
                self.artists@ == old(self).artists@,
                self.wf(),
                a < self.artists@.len(),
                forall|k: int| 0 <= k < j ==> (#[trigger] self.artists@[a as int].albums@[k]).name@ != name@,
            decreases self.artists@[a as int].albums@.len() - j,
        {
            if self.artists[a].albums[j].name.same(name) {
                return j;
            }
            j = j + 1;
        }
        let mut artist = self.artists.remove(a);
        let ghost old_albums = artist.albums@;
        artist.albums.push(Album::new(name.clone_name()));
        proof {
            let oldest = old(self).artists@[a as int];
            assert(artist == oldest || artist.name == oldest.name);
            assert(artist_wf(oldest));
            assert forall|i: int, k: int|
                0 <= i < k < artist.albums@.len() implies (#[trigger] artist.albums@[i]).name@
                != (#[trigger] artist.albums@[k]).name@ by {
                assert(artist.albums@[i] == old_albums[i]);
                if k < old_albums.len() {
                    assert(artist.albums@[k] == old_albums[k]);
                }
            }
            assert forall|i: int| 0 <= i < artist.albums@.len() implies album_wf(
                #[trigger] artist.albums@[i],
                artist.name,
            ) by {
                if i < old_albums.len() {
                    assert(artist.albums@[i] == old_albums[i]);
                }
            }
        }
        self.artists.insert(a, artist);
        proof {
            assert(self.artists@ =~= old(self).artists@.update(a as int, artist));
            assert forall|i: int, k: int|
                0 <= i < k < self.artists@.len() implies (#[trigger] self.artists@[i]).name@
                != (#[trigger] self.artists@[k]).name@ by {
                assert(self.artists@[i].name == old(self).artists@[i].name);
                assert(self.artists@[k].name == old(self).artists@[k].name);
            }
            assert forall|i: int| 0 <= i < self.artists@.len() implies artist_wf(
                #[trigger] self.artists@[i],
            ) by {
                if i != a {
                    assert(self.artists@[i] == old(self).artists@[i]);
                }
            }
        }
        self.artists[a].albums.len() - 1
    }
}

impl ArtistName {
    /// A copy of the name.
    pub fn clone_name(&self) -> (c: ArtistName)
        ensures
            c == *self,
    {
        match self {
            ArtistName::Unknown => ArtistName::Unknown,
            ArtistName::Artist(s) => ArtistName::Artist(s.clone()),
        }
    }
}

impl AlbumName {
    /// A copy of the name.
    pub fn clone_name(&self) -> (c: AlbumName)
        ensures
            c == *self,
    {
        match &self.0 {
            None => AlbumName(None),
            Some(s) => AlbumName(Some(s.clone())),
        }
    }
}


/// Each album with its artist, artist by artist.
pub open spec fn album_pairs(artists: Seq<Artist>) -> Seq<(Album, Artist)>
    decreases artists.len(),
{
    if artists.len() == 0 {
        Seq::empty()
    } else {
        album_pairs(artists.drop_last()) + artists.last().albums@.map_values(
            |al: Album| (al, artists.last()),
        )
    }
}

/// Each album's tracks, album by album.
pub open spec fn album_tracks(albums: Seq<(Album, Artist)>) -> Seq<Arc<Track>>
    decreases albums.len(),
{
    if albums.len() == 0 {
        Seq::empty()
    } else {
        album_tracks(albums.drop_last()) + albums.last().0.tracks@
    }
}

impl Library {
    /// Builds a library by inserting the tracks one by one.
    pub fn from_tracks(tracks: Vec<Track>) -> (l: Library)
        ensures
            l.wf(),
            artists_values(l.artists@).to_multiset() == tracks@.to_multiset(),
            library_shape(l.artists@) == build_shape(tracks@),
    {
        broadcast use vstd::seq_lib::group_to_multiset_ensures;

        let mut library = Library::new();
        let ghost all = tracks@;
        let mut tracks = tracks;
        proof {
            assert(artists_values(library.artists@) =~= Seq::<Track>::empty());
            assert(all.take(0) =~= Seq::<Track>::empty());
            assert(library_shape(library.artists@) =~= build_shape(all.take(0)));
            assert(all.skip(0) =~= all);
        }
        let n = tracks.len();
        let mut i: usize = 0;
        while tracks.len() > 0
            invariant
                library.wf(),
                n == all.len(),
                i <= all.len(),
                tracks@ == all.skip(i as int),
                artists_values(library.artists@).to_multiset() == all.take(i as int).to_multiset(),
                library_shape(library.artists@) == build_shape(all.take(i as int)),
            decreases tracks.len(),
        {
            let t = tracks.remove(0);
            let ghost before = all.take(i as int);
            proof {
                assert(t == all[i as int]);
                assert(all.take(i + 1) =~= before.push(t));
                vstd::seq_lib::to_multiset_build(before, t);
                assert(all.take(i + 1).to_multiset() =~= before.to_multiset().insert(t));
                assert(tracks@ =~= all.skip(i + 1));
            }
            library.insert_track(t);
            proof {
                assert(all.take(i + 1).drop_last() =~= before);
            }
            i = i + 1;
        }
        proof {
            assert(all.take(i as int) =~= all);
        }
        library
    }

    /// The artists.
    pub fn artists(&self) -> (r: &Vec<Artist>)
        ensures
            r@ == self.artists@,
    {
        &self.artists
    }

    /// Each album together with its artist.
    pub fn albums_with_artist(&self) -> (r: Vec<(&Album, &Artist)>)
        ensures
            r@.len() == album_pairs(self.artists@).len(),
            forall|k: int| 0 <= k < r@.len() ==> (*(#[trigger] r@[k]).0, *r@[k].1) == album_pairs(self.artists@)[k],
    {
        let mut r: Vec<(&Album, &Artist)> = Vec::new();
        let mut i: usize = 0;
        while i < self.artists.len()
            invariant
                0 <= i <= self.artists.len(),
                r@.len() == album_pairs(self.artists@.take(i as int)).len(),
                forall|k: int| 0 <= k < r@.len() ==> (*(#[trigger] r@[k]).0, *r@[k].1) == album_pairs(self.artists@.take(i as int))[k],
            decreases self.artists.len() - i,
        {
            let artist = &self.artists[i];
            let ghost base = album_pairs(self.artists@.take(i as int));
            let ghost start = r@.len();
            let mut j: usize = 0;
            while j < artist.albums.len()
                invariant
                    0 <= j <= artist.albums.len(),
                    *artist == self.artists@[i as int],
                    i < self.artists.len(),
                    start == base.len(),
                    r@.len() == start + j,
                    forall|k: int| 0 <= k < start ==> (*(#[trigger] r@[k]).0, *r@[k].1) == base[k],
                    forall|k: int| 0 <= k < j ==> (*(#[trigger] r@[start + k]).0, *r@[start + k].1) == (artist.albums@[k], *artist),
                decreases artist.albums.len() - j,
            {
                r.push((&artist.albums[j], artist));
                j = j + 1;
            }
            proof {
                let next = self.artists@.take(i + 1);
                assert(next.drop_last() =~= self.artists@.take(i as int));
                assert(next.last() == self.artists@[i as int]);
                let added = next.last().albums@.map_values(|al: Album| (al, next.last()));
                assert(album_pairs(next) == base + added);
                assert forall|k: int| 0 <= k < r@.len() implies (*(#[trigger] r@[k]).0, *r@[k].1) == album_pairs(next)[k] by {
                    if k < start {
                    } else {
                        assert(added[k - start] == (artist.albums@[k - start], *artist));
                        assert((*r@[start + (k - start)].0, *r@[start + (k - start)].1) == (artist.albums@[k - start], *artist));
                    }
                }
            }
            i = i + 1;
        }
        assert(self.artists@.take(self.artists@.len() as int) =~= self.artists@);
        r
    }

    /// The albums, artist by artist.
    pub fn albums(&self) -> (r: Vec<&Album>)
        ensures
            r@.len() == album_pairs(self.artists@).len(),
            forall|k: int| 0 <= k < r@.len() ==> *(#[trigger] r@[k]) == album_pairs(self.artists@)[k].0,
    {
        let pairs = self.albums_with_artist();
        let mut r: Vec<&Album> = Vec::new();
        let mut k: usize = 0;
        while k < pairs.len()
            invariant
                0 <= k <= pairs.len(),
                r@.len() == k,
                pairs@.len() == album_pairs(self.artists@).len(),
                forall|m: int| 0 <= m < pairs@.len() ==> (*(#[trigger] pairs@[m]).0, *pairs@[m].1) == album_pairs(self.artists@)[m],
                forall|m: int| 0 <= m < k ==> *(#[trigger] r@[m]) == album_pairs(self.artists@)[m].0,
            decreases pairs.len() - k,
        {
            r.push(pairs[k].0);
            k = k + 1;
        }
        r
    }

    /// All the tracks, album by album.
    pub fn tracks(&self) -> (r: Vec<Arc<Track>>)
        ensures
            r@ == album_tracks(album_pairs(self.artists@)),
    {
        let pairs = self.albums_with_artist();
        let ghost ap = album_pairs(self.artists@);
        let mut r: Vec<Arc<Track>> = Vec::new();
        let mut k: usize = 0;
        while k < pairs.len()
            invariant
                0 <= k <= pairs.len(),
                pairs@.len() == ap.len(),
                forall|m: int| 0 <= m < pairs@.len() ==> (*(#[trigger] pairs@[m]).0, *pairs@[m].1) == ap[m],
                r@ == album_tracks(ap.take(k as int)),
            decreases pairs.len() - k,
        {
            let album = pairs[k].0;
            let ghost before = r@;
            let mut j: usize = 0;
            while j < album.tracks.len()
                invariant
                    0 <= j <= album.tracks.len(),
                    r@ == before + album.tracks@.take(j as int),
                decreases album.tracks.len() - j,
            {
                r.push(crate::play_queue::share(&album.tracks[j]));
                j = j + 1;
                assert(r@ =~= before + album.tracks@.take(j as int));
            }
            proof {
                let next = ap.take(k + 1);
                assert(next.drop_last() =~= ap.take(k as int));
                assert(next.last() == ap[k as int]);
                assert(album.tracks@.take(album.tracks@.len() as int) =~= album.tracks@);
            }
            k = k + 1;
        }
        assert(ap.take(ap.len() as int) =~= ap);
        r
    }
}

/// The values of the tracks.
pub open spec fn track_values(tracks: Seq<Arc<Track>>) -> Seq<Track> {
    tracks.map_values(|t: Arc<Track>| *t)
}

/// The tracks of the albums, album by album.
pub open spec fn albums_values(albums: Seq<Album>) -> Seq<Track>
    decreases albums.len(),
{
    if albums.len() == 0 {
        Seq::empty()
    } else {
        albums_values(albums.drop_last()) + track_values(albums.last().tracks@)
    }
}

/// The tracks of the artists, artist by artist and album by album.
pub open spec fn artists_values(artists: Seq<Artist>) -> Seq<Track>
    decreases artists.len(),
{
    if artists.len() == 0 {
        Seq::empty()
    } else {
        artists_values(artists.drop_last()) + albums_values(artists.last().albums@)
    }
}

proof fn lemma_album_tracks_append(x: Seq<(Album, Artist)>, y: Seq<(Album, Artist)>)
    ensures
        album_tracks(x + y) == album_tracks(x) + album_tracks(y),
    decreases y.len(),
{
    if y.len() == 0 {
        assert(x + y =~= x);
        assert(album_tracks(x) + album_tracks(y) =~= album_tracks(x));
    } else {
        lemma_album_tracks_append(x, y.drop_last());
        assert((x + y).drop_last() =~= x + y.drop_last());
        assert((x + y).last() == y.last());
        assert(album_tracks(x + y) =~= album_tracks(x) + album_tracks(y));
    }
}

proof fn lemma_pairs_values(albums: Seq<Album>, artist: Artist)
    ensures
        track_values(album_tracks(albums.map_values(|al: Album| (al, artist)))) == albums_values(albums),
    decreases albums.len(),
{
    let pairs = albums.map_values(|al: Album| (al, artist));
    if albums.len() > 0 {
        lemma_pairs_values(albums.drop_last(), artist);
        assert(pairs.drop_last() =~= albums.drop_last().map_values(|al: Album| (al, artist)));
        assert(pairs.last() == (albums.last(), artist));
        assert(track_values(album_tracks(pairs)) =~= track_values(album_tracks(pairs.drop_last())) + track_values(albums.last().tracks@));
    } else {
        assert(track_values(album_tracks(pairs)) =~= Seq::<Track>::empty());
    }
}

/// The tracks listed by [`Library::tracks`] are those of the artists.
pub proof fn lemma_library_values(artists: Seq<Artist>)
    ensures
        track_values(album_tracks(album_pairs(artists))) == artists_values(artists),
    decreases artists.len(),
{
    if artists.len() > 0 {
        let last = artists.last();
        let added = last.albums@.map_values(|al: Album| (al, last));
        lemma_library_values(artists.drop_last());
        lemma_album_tracks_append(album_pairs(artists.drop_last()), added);
        lemma_pairs_values(last.albums@, last);
        assert(track_values(album_tracks(album_pairs(artists.drop_last())) + album_tracks(added))
            =~= track_values(album_tracks(album_pairs(artists.drop_last()))) + track_values(album_tracks(added)));
    } else {
        assert(track_values(album_tracks(album_pairs(artists))) =~= Seq::<Track>::empty());
    }
}

/// Replacing one album changes the tracks by what it held.
proof fn lemma_albums_update(old: Seq<Album>, new: Seq<Album>, b: int)
    requires
        old.len() == new.len(),
        0 <= b < old.len(),
        forall|j: int| 0 <= j < old.len() && j != b ==> #[trigger] new[j] == old[j],
    ensures
        albums_values(new).to_multiset().add(track_values(old[b].tracks@).to_multiset())
            =~= albums_values(old).to_multiset().add(track_values(new[b].tracks@).to_multiset()),
    decreases old.len(),
{
    broadcast use vstd::multiset::group_multiset_axioms;
    broadcast use vstd::seq_lib::lemma_multiset_commutative;

    let n = old.len() - 1;
    let (po, pn) = (old.drop_last(), new.drop_last());
    assert(albums_values(new) == albums_values(pn) + track_values(new.last().tracks@));
    assert(albums_values(old) == albums_values(po) + track_values(old.last().tracks@));
    vstd::seq_lib::lemma_multiset_commutative(albums_values(pn), track_values(new.last().tracks@));
    vstd::seq_lib::lemma_multiset_commutative(albums_values(po), track_values(old.last().tracks@));
    let tn = track_values(new.last().tracks@).to_multiset();
    let to = track_values(old.last().tracks@).to_multiset();
    let xo = track_values(old[b].tracks@).to_multiset();
    let xn = track_values(new[b].tracks@).to_multiset();
    let lhs = albums_values(new).to_multiset().add(xo);
    let rhs = albums_values(old).to_multiset().add(xn);
    if b == n {
        assert(pn =~= po);
        assert forall|v: Track| lhs.count(v) == rhs.count(v) by {
            assert(albums_values(new).to_multiset().count(v) == albums_values(pn).to_multiset().count(v) + tn.count(v));
            assert(albums_values(old).to_multiset().count(v) == albums_values(po).to_multiset().count(v) + to.count(v));
        }
    } else {
        lemma_albums_update(po, pn, b);
        assert(new.last() == old.last());
        assert(pn[b] == new[b] && po[b] == old[b]);
        let ih_l = albums_values(pn).to_multiset().add(xo);
        let ih_r = albums_values(po).to_multiset().add(xn);
        assert forall|v: Track| lhs.count(v) == rhs.count(v) by {
            assert(ih_l.count(v) == ih_r.count(v));
            assert(albums_values(new).to_multiset().count(v) == albums_values(pn).to_multiset().count(v) + tn.count(v));
            assert(albums_values(old).to_multiset().count(v) == albums_values(po).to_multiset().count(v) + to.count(v));
        }
    }
    assert(lhs =~= rhs);
}

/// Replacing one artist changes the tracks by what it held.
proof fn lemma_artists_update(old: Seq<Artist>, new: Seq<Artist>, a: int)
    requires
        old.len() == new.len(),
        0 <= a < old.len(),
        forall|j: int| 0 <= j < old.len() && j != a ==> #[trigger] new[j] == old[j],
    ensures
        artists_values(new).to_multiset().add(albums_values(old[a].albums@).to_multiset())
            =~= artists_values(old).to_multiset().add(albums_values(new[a].albums@).to_multiset()),
    decreases old.len(),
{
    broadcast use vstd::multiset::group_multiset_axioms;
    broadcast use vstd::seq_lib::lemma_multiset_commutative;

    let n = old.len() - 1;
    let (po, pn) = (old.drop_last(), new.drop_last());
    assert(artists_values(new) == artists_values(pn) + albums_values(new.last().albums@));
    assert(artists_values(old) == artists_values(po) + albums_values(old.last().albums@));
    vstd::seq_lib::lemma_multiset_commutative(artists_values(pn), albums_values(new.last().albums@));
    vstd::seq_lib::lemma_multiset_commutative(artists_values(po), albums_values(old.last().albums@));
    let tn = albums_values(new.last().albums@).to_multiset();
    let to = albums_values(old.last().albums@).to_multiset();
    let xo = albums_values(old[a].albums@).to_multiset();
    let xn = albums_values(new[a].albums@).to_multiset();
    let lhs = artists_values(new).to_multiset().add(xo);
    let rhs = artists_values(old).to_multiset().add(xn);
    if a == n {
        assert(pn =~= po);
        assert forall|v: Track| lhs.count(v) == rhs.count(v) by {
            assert(artists_values(new).to_multiset().count(v) == artists_values(pn).to_multiset().count(v) + tn.count(v));
            assert(artists_values(old).to_multiset().count(v) == artists_values(po).to_multiset().count(v) + to.count(v));
        }
    } else {
        lemma_artists_update(po, pn, a);
        assert(new.last() == old.last());
        assert(pn[a] == new[a] && po[a] == old[a]);
        let ih_l = artists_values(pn).to_multiset().add(xo);
        let ih_r = artists_values(po).to_multiset().add(xn);
        assert forall|v: Track| lhs.count(v) == rhs.count(v) by {
            assert(ih_l.count(v) == ih_r.count(v));
            assert(artists_values(new).to_multiset().count(v) == artists_values(pn).to_multiset().count(v) + tn.count(v));
            assert(artists_values(old).to_multiset().count(v) == artists_values(po).to_multiset().count(v) + to.count(v));
        }
    }
    assert(lhs =~= rhs);
}

/// After an insertion the library holds one more copy of the track.
proof fn lemma_inserted_values(old: Seq<Artist>, new: Seq<Artist>, track: Track, a: int, b: int, p: int)
    requires
        inserted_at(old, new, track, a, b, p),
    ensures
        artists_values(new).to_multiset() =~= artists_values(old).to_multiset().insert(track),
{
    broadcast use vstd::multiset::group_multiset_axioms;
    broadcast use vstd::seq_lib::lemma_multiset_commutative;
    broadcast use vstd::seq_lib::group_to_multiset_ensures;

    let old_albums = albums_at(old, a);
    let old_tracks = tracks_at(old_albums, b);
    let new_tracks = new[a].albums@[b].tracks@;
    assert(new_tracks =~= old_tracks.insert(p, new_tracks[p]));
    assert(track_values(new_tracks) =~= track_values(old_tracks).insert(p, track));
    assert(track_values(new_tracks).to_multiset() =~= track_values(old_tracks).to_multiset().insert(track));
    let new_albums = new[a].albums@;
    // the artist's albums
    let ms_new_tracks = track_values(new_tracks).to_multiset();
    let ms_old_tracks = track_values(old_tracks).to_multiset();
    if b < old_albums.len() {
        lemma_albums_update(old_albums, new_albums, b);
        assert(old_albums[b].tracks@ == old_tracks);
        let l = albums_values(new_albums).to_multiset().add(ms_old_tracks);
        let r = albums_values(old_albums).to_multiset().add(ms_new_tracks);
        assert forall|v: Track| albums_values(new_albums).to_multiset().count(v) == albums_values(old_albums).to_multiset().insert(track).count(v) by {
            assert(l.count(v) == r.count(v));
            assert(ms_new_tracks.count(v) == ms_old_tracks.count(v) + if v == track { 1int } else { 0int });
        }
        assert(albums_values(new_albums).to_multiset() =~= albums_values(old_albums).to_multiset().insert(track));
    } else {
        assert(old_tracks.len() == 0);
        assert(new_albums.drop_last() =~= old_albums);
        assert(track_values(new_tracks) =~= seq![track]);
        assert(albums_values(new_albums) == albums_values(old_albums) + track_values(new_tracks));
        vstd::seq_lib::lemma_multiset_commutative(albums_values(old_albums), track_values(new_tracks));
        assert(seq![track].to_multiset() =~= vstd::multiset::Multiset::<Track>::empty().insert(track)) by {
            assert(seq![track] =~= Seq::<Track>::empty().push(track));
        }
        assert(albums_values(new_albums).to_multiset() =~= albums_values(old_albums).to_multiset().insert(track));
    }
    // the artists
    let ms_new_albums = albums_values(new_albums).to_multiset();
    let ms_old_albums = albums_values(old_albums).to_multiset();
    if a < old.len() {
        assert(old_albums == old[a].albums@);
        lemma_artists_update(old, new, a);
        let l = artists_values(new).to_multiset().add(ms_old_albums);
        let r = artists_values(old).to_multiset().add(ms_new_albums);
        assert forall|v: Track| artists_values(new).to_multiset().count(v) == artists_values(old).to_multiset().insert(track).count(v) by {
            assert(l.count(v) == r.count(v));
            assert(ms_new_albums.count(v) == ms_old_albums.count(v) + if v == track { 1int } else { 0int });
        }
    } else {
        assert(new.drop_last() =~= old);
        assert(old_albums.len() == 0);
        assert(albums_values(old_albums) =~= Seq::<Track>::empty());
        assert(artists_values(new) == artists_values(old) + albums_values(new_albums));
        vstd::seq_lib::lemma_multiset_commutative(artists_values(old), albums_values(new_albums));
        assert forall|v: Track| artists_values(new).to_multiset().count(v) == artists_values(old).to_multiset().insert(track).count(v) by {
            assert(ms_new_albums.count(v) == ms_old_albums.count(v) + if v == track { 1int } else { 0int });
            assert(ms_old_albums.count(v) == 0);
        }
    }
}

/// The tracks of the albums, album by album.
pub open spec fn albums_shape_tracks(albums: Seq<AlbumShape>) -> Seq<Track>
    decreases albums.len(),
{
    if albums.len() == 0 {
        Seq::empty()
    } else {
        albums_shape_tracks(albums.drop_last()) + albums.last().1
    }
}

/// The tracks of the library, artist by artist and album by album.
pub open spec fn shape_tracks(s: Seq<ArtistShape>) -> Seq<Track>
    decreases s.len(),
{
    if s.len() == 0 {
        Seq::empty()
    } else {
        shape_tracks(s.drop_last()) + albums_shape_tracks(s.last().1)
    }
}

/// No entry is named `name`.
pub open spec fn no_name<V>(s: Seq<(Option<Seq<char>>, V)>, name: Option<Seq<char>>) -> bool {
    forall|i: int| 0 <= i < s.len() ==> (#[trigger] s[i]).0 != name
}

/// The tracks are ordered by number.
pub open spec fn numbers_sorted(ts: Seq<Track>) -> bool {
    forall|i: int, j: int| 0 <= i < j < ts.len() ==> number_le((#[trigger] ts[i]).number, (#[trigger] ts[j]).number)
}

/// An album with tracks, in order, each of this album and artist.
pub open spec fn album_shape_wf(album: AlbumShape, artist: Option<Seq<char>>) -> bool {
    &&& album.1.len() > 0
    &&& numbers_sorted(album.1)
    &&& forall|k: int| 0 <= k < album.1.len() ==> (#[trigger] album.1[k]).artist@ == artist && album.1[k].album@ == album.0
}

/// An artist with albums, of distinct names, each well formed.
pub open spec fn artist_shape_wf(artist: ArtistShape) -> bool {
    &&& artist.1.len() > 0
    &&& forall|i: int, j: int| 0 <= i < j < artist.1.len() ==> (#[trigger] artist.1[i]).0 != (#[trigger] artist.1[j]).0
    &&& forall|i: int| 0 <= i < artist.1.len() ==> album_shape_wf(#[trigger] artist.1[i], artist.0)
}

/// Artists of distinct names, each well formed.
pub open spec fn shape_wf(s: Seq<ArtistShape>) -> bool {
    &&& forall|i: int, j: int| 0 <= i < j < s.len() ==> (#[trigger] s[i]).0 != (#[trigger] s[j]).0
    &&& forall|i: int| 0 <= i < s.len() ==> artist_shape_wf(#[trigger] s[i])
}

proof fn lemma_insert_all_append(s: Seq<ArtistShape>, xs: Seq<Track>, ys: Seq<Track>)
    ensures
        insert_all(s, xs + ys) == insert_all(insert_all(s, xs), ys),
    decreases ys.len(),
{
    if ys.len() == 0 {
        assert(xs + ys =~= xs);
    } else {
        lemma_insert_all_append(s, xs, ys.drop_last());
        assert((xs + ys).drop_last() =~= xs + ys.drop_last());
        assert((xs + ys).last() == ys.last());
    }
}

proof fn lemma_insert_all_one(s: Seq<ArtistShape>, t: Track)
    ensures
        insert_all(s, seq![t]) == insert_shape(s, t),
{
    let one = seq![t];
    assert(one.drop_last() =~= Seq::<Track>::empty());
    assert(insert_all(s, one.drop_last()) == s);
    assert(one.last() == t);
}

/// A track of a new artist starts that artist, with one album.
proof fn lemma_new_artist(s: Seq<ArtistShape>, t: Track)
    requires
        no_name(s, t.artist@),
    ensures
        insert_shape(s, t) == s.push((t.artist@, seq![(t.album@, seq![t])])),
{
    lemma_find_unique(s, t.artist@, s.len() as int);
    let empty_albums = Seq::<AlbumShape>::empty();
    assert(find_name(empty_albums, t.album@) == 0);
    let empty_tracks = Seq::<Track>::empty();
    assert(insert_pos(empty_tracks, t.number) == 0);
    assert(empty_tracks.insert(0, t) =~= seq![t]);
    assert(empty_albums.push((t.album@, seq![t])) =~= seq![(t.album@, seq![t])]);
}

/// A track of a new album of the last artist starts that album.
proof fn lemma_new_album(s: Seq<ArtistShape>, artist: Option<Seq<char>>, albums: Seq<AlbumShape>, t: Track)
    requires
        no_name(s, artist),
        t.artist@ == artist,
        no_name(albums, t.album@),
    ensures
        insert_shape(s.push((artist, albums)), t) == s.push((artist, albums.push((t.album@, seq![t])))),
{
    let st = s.push((artist, albums));
    assert forall|j: int| 0 <= j < st.len() && j != s.len() implies (#[trigger] st[j]).0 != artist by {
        assert(st[j] == s[j]);
    }
    lemma_find_unique(st, artist, s.len() as int);
    lemma_find_unique(albums, t.album@, albums.len() as int);
    let empty_tracks = Seq::<Track>::empty();
    assert(insert_pos(empty_tracks, t.number) == 0);
    assert(empty_tracks.insert(0, t) =~= seq![t]);
    assert(st.update(s.len() as int, (artist, albums.push((t.album@, seq![t])))) =~= s.push((artist, albums.push((t.album@, seq![t])))));
}

/// A track numbered no lower than the last album's tracks goes at its end.
proof fn lemma_next_track(
    s: Seq<ArtistShape>,
    artist: Option<Seq<char>>,
    albums: Seq<AlbumShape>,
    album: Option<Seq<char>>,
    tracks: Seq<Track>,
    y: Track,
)
    requires
        no_name(s, artist),
        no_name(albums, album),
        y.artist@ == artist,
        y.album@ == album,
        forall|k: int| 0 <= k < tracks.len() ==> number_le((#[trigger] tracks[k]).number, y.number),
    ensures
        insert_shape(s.push((artist, albums.push((album, tracks)))), y)
            == s.push((artist, albums.push((album, tracks.push(y))))),
{
    let all_albums = albums.push((album, tracks));
    let st = s.push((artist, all_albums));
    assert forall|j: int| 0 <= j < st.len() && j != s.len() implies (#[trigger] st[j]).0 != artist by {
        assert(st[j] == s[j]);
    }
    lemma_find_unique(st, artist, s.len() as int);
    assert forall|j: int| 0 <= j < all_albums.len() && j != albums.len() implies (#[trigger] all_albums[j]).0 != album by {
        assert(all_albums[j] == albums[j]);
    }
    lemma_find_unique(all_albums, album, albums.len() as int);
    lemma_insert_pos(tracks, y.number);
    assert(insert_pos(tracks, y.number) == tracks.len());
    assert(tracks.insert(tracks.len() as int, y) =~= tracks.push(y));
    assert(all_albums.update(albums.len() as int, (album, tracks.push(y))) =~= albums.push((album, tracks.push(y))));
    assert(st.update(s.len() as int, (artist, albums.push((album, tracks.push(y))))) =~= s.push((artist, albums.push((album, tracks.push(y))))));
}

/// The rest of an album's tracks, in order, go at the end of the album.
proof fn lemma_album_rest(
    s: Seq<ArtistShape>,
    artist: Option<Seq<char>>,
    albums: Seq<AlbumShape>,
    album: Option<Seq<char>>,
    tracks: Seq<Track>,
    ys: Seq<Track>,
)
    requires
        no_name(s, artist),
        no_name(albums, album),
        forall|k: int| 0 <= k < ys.len() ==> (#[trigger] ys[k]).artist@ == artist && ys[k].album@ == album,
        numbers_sorted(tracks + ys),
    ensures
        insert_all(s.push((artist, albums.push((album, tracks)))), ys)
            == s.push((artist, albums.push((album, tracks + ys)))),
    decreases ys.len(),
{
    if ys.len() == 0 {
        assert(tracks + ys =~= tracks);
    } else {
        let front = ys.drop_last();
        let y = ys.last();
        let all = tracks + ys;
        let before = tracks + front;
        assert forall|i: int, j: int| 0 <= i < j < before.len() implies number_le((#[trigger] before[i]).number, (#[trigger] before[j]).number) by {
            assert(before[i] == all[i] && before[j] == all[j]);
        }
        lemma_album_rest(s, artist, albums, album, tracks, front);
        assert forall|k: int| 0 <= k < before.len() implies number_le((#[trigger] before[k]).number, y.number) by {
            assert(before[k] == all[k]);
            assert(y == all[all.len() - 1]);
        }
        assert(y.artist@ == artist && y.album@ == album);
        lemma_next_track(s, artist, albums, album, before, y);
        assert(before.push(y) =~= all);
    }
}

/// The tracks of a new artist's albums, album by album, rebuild that artist.
proof fn lemma_artist_rebuilt(s: Seq<ArtistShape>, artist: ArtistShape)
    requires
        no_name(s, artist.0),
        artist_shape_wf(artist),
    ensures
        insert_all(s, albums_shape_tracks(artist.1)) == s.push(artist),
    decreases artist.1.len(),
{
    let albums = artist.1;
    let front = albums.drop_last();
    let last = albums.last();
    assert(album_shape_wf(albums[albums.len() - 1], artist.0));
    let t0 = last.1[0];
    let rest = last.1.skip(1);
    assert(last.1 =~= seq![t0] + rest);
    assert(no_name(front, last.0)) by {
        assert forall|i: int| 0 <= i < front.len() implies (#[trigger] front[i]).0 != last.0 by {
            assert(front[i] == albums[i]);
            assert(albums[i].0 != albums[albums.len() - 1].0);
        }
    }
    assert forall|k: int| 0 <= k < rest.len() implies (#[trigger] rest[k]).artist@ == artist.0 && rest[k].album@ == last.0 by {
        assert(rest[k] == last.1[k + 1]);
    }
    let before = insert_all(s, albums_shape_tracks(front));
    if front.len() == 0 {
        assert(albums_shape_tracks(front) =~= Seq::<Track>::empty());
        assert(before == s);
        lemma_new_artist(s, t0);
        assert(seq![(last.0, seq![t0])] =~= Seq::<AlbumShape>::empty().push((last.0, seq![t0])));
        lemma_album_rest(s, artist.0, Seq::<AlbumShape>::empty(), last.0, seq![t0], rest);
        assert(Seq::<AlbumShape>::empty().push((last.0, seq![t0] + rest)) =~= albums);
    } else {
        assert(artist_shape_wf((artist.0, front))) by {
            assert forall|i: int| 0 <= i < front.len() implies album_shape_wf(#[trigger] front[i], artist.0) by {
                assert(front[i] == albums[i]);
            }
            assert forall|i: int, j: int| 0 <= i < j < front.len() implies (#[trigger] front[i]).0 != (#[trigger] front[j]).0 by {
                assert(front[i] == albums[i] && front[j] == albums[j]);
            }
        }
        lemma_artist_rebuilt(s, (artist.0, front));
        lemma_new_album(s, artist.0, front, t0);
        lemma_album_rest(s, artist.0, front, last.0, seq![t0], rest);
        assert(front.push((last.0, seq![t0] + rest)) =~= albums);
    }
    lemma_insert_all_append(s, albums_shape_tracks(front), last.1);
    lemma_insert_all_append(before, seq![t0], rest);
    lemma_insert_all_one(before, t0);
    assert((artist.0, albums) == artist);
}

/// Adding the tracks of a well-formed library one by one, artist by artist
/// and album by album, builds that library again.
proof fn lemma_shape_rebuilt(s: Seq<ArtistShape>)
    requires
        shape_wf(s),
    ensures
        build_shape(shape_tracks(s)) == s,
    decreases s.len(),
{
    if s.len() == 0 {
        assert(shape_tracks(s) =~= Seq::<Track>::empty());
        assert(s =~= Seq::<ArtistShape>::empty());
    } else {
        let front = s.drop_last();
        let last = s.last();
        assert(shape_wf(front)) by {
            assert forall|i: int| 0 <= i < front.len() implies artist_shape_wf(#[trigger] front[i]) by {
                assert(front[i] == s[i]);
            }
            assert forall|i: int, j: int| 0 <= i < j < front.len() implies (#[trigger] front[i]).0 != (#[trigger] front[j]).0 by {
                assert(front[i] == s[i] && front[j] == s[j]);
            }
        }
        lemma_shape_rebuilt(front);
        assert(no_name(front, last.0)) by {
            assert forall|i: int| 0 <= i < front.len() implies (#[trigger] front[i]).0 != last.0 by {
                assert(front[i] == s[i]);
                assert(s[i].0 != s[s.len() - 1].0);
            }
        }
        assert(artist_shape_wf(s[s.len() - 1]));
        lemma_artist_rebuilt(front, last);
        lemma_insert_all_append(Seq::empty(), shape_tracks(front), albums_shape_tracks(last.1));
        assert(front.push(last) =~= s);
    }
}

proof fn lemma_albums_shape_tracks(albums: Seq<Album>)
    ensures
        albums_values(albums) == albums_shape_tracks(albums.map_values(|al: Album| album_shape(al))),
    decreases albums.len(),
{
    if albums.len() > 0 {
        lemma_albums_shape_tracks(albums.drop_last());
        assert(albums.map_values(|al: Album| album_shape(al)).drop_last() =~= albums.drop_last().map_values(|al: Album| album_shape(al)));
    } else {
        assert(albums_shape_tracks(albums.map_values(|al: Album| album_shape(al))) =~= Seq::<Track>::empty());
    }
}

/// The tracks of a library are those of its plain values.
proof fn lemma_shape_tracks(artists: Seq<Artist>)
    ensures
        artists_values(artists) == shape_tracks(library_shape(artists)),
    decreases artists.len(),
{
    if artists.len() > 0 {
        lemma_shape_tracks(artists.drop_last());
        lemma_albums_shape_tracks(artists.last().albums@);
        assert(library_shape(artists).drop_last() =~= library_shape(artists.drop_last()));
    } else {
        assert(shape_tracks(library_shape(artists)) =~= Seq::<Track>::empty());
    }
}

/// A well-formed library whose artists all have albums and whose albums
/// all have tracks is well formed as plain values.
proof fn lemma_shape_wf(library: Library)
    requires
        library.wf(),
        forall|i: int| 0 <= i < library.artists@.len() ==> (#[trigger] library.artists@[i]).albums@.len() > 0,
        forall|i: int, j: int| 0 <= i < library.artists@.len() && 0 <= j < library.artists@[i].albums@.len()
            ==> (#[trigger] library.artists@[i].albums@[j]).tracks@.len() > 0,
    ensures
        shape_wf(library_shape(library.artists@)),
{
    let s = library_shape(library.artists@);
    assert forall|i: int| 0 <= i < s.len() implies artist_shape_wf(#[trigger] s[i]) by {
        let artist = library.artists@[i];
        assert(artist_wf(artist));
        let albums = s[i].1;
        assert(albums == artist.albums@.map_values(|al: Album| album_shape(al)));
        assert forall|j: int| 0 <= j < albums.len() implies album_shape_wf(#[trigger] albums[j], s[i].0) by {
            let album = artist.albums@[j];
            assert(album_wf(album, artist.name));
            assert(library.artists@[i].albums@[j].tracks@.len() > 0);
            let ts = albums[j].1;
            assert(ts == track_values(album.tracks@));
            assert forall|x: int, y: int| 0 <= x < y < ts.len() implies number_le((#[trigger] ts[x]).number, (#[trigger] ts[y]).number) by {
                assert(number_le(album.tracks@[x].number, album.tracks@[y].number));
            }
            assert forall|k: int| 0 <= k < ts.len() implies (#[trigger] ts[k]).artist@ == s[i].0 && ts[k].album@ == albums[j].0 by {
                assert(album.tracks@[k].album@ == album.name@);
            }
        }
        assert forall|x: int, y: int| 0 <= x < y < albums.len() implies (#[trigger] albums[x]).0 != (#[trigger] albums[y]).0 by {
            assert(artist.albums@[x].name@ != artist.albums@[y].name@);
        }
    }
    assert forall|i: int, j: int| 0 <= i < j < s.len() implies (#[trigger] s[i]).0 != (#[trigger] s[j]).0 by {
        assert(library.artists@[i].name@ != library.artists@[j].name@);
    }
}

/// A library saved as the list of its tracks ([`Library::tracks`]) and
/// loaded back by inserting them one by one ([`Library::from_tracks`]) is
/// the same library: the same artists in the same order, each with the
/// same albums in the same order, each with the same tracks in the same
/// order. This holds of every library in which each artist has an album
/// and each album a track, as scanning builds it.
pub proof fn lemma_save_load_round_trip(library: Library, saved: Seq<Track>, loaded: Library)
    requires
        library.wf(),
        forall|i: int| 0 <= i < library.artists@.len() ==> (#[trigger] library.artists@[i]).albums@.len() > 0,
        forall|i: int, j: int| 0 <= i < library.artists@.len() && 0 <= j < library.artists@[i].albums@.len()
            ==> (#[trigger] library.artists@[i].albums@[j]).tracks@.len() > 0,
        saved == track_values(album_tracks(album_pairs(library.artists@))),
        library_shape(loaded.artists@) == build_shape(saved),
    ensures
        library_shape(loaded.artists@) == library_shape(library.artists@),
        artists_values(loaded.artists@) == artists_values(library.artists@),
{
    lemma_library_values(library.artists@);
    lemma_shape_tracks(library.artists@);
    lemma_shape_tracks(loaded.artists@);
    lemma_shape_wf(library);
    lemma_shape_rebuilt(library_shape(library.artists@));
}

} // verus!
