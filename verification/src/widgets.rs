//! The widgets of the queue/albums interface: which screen is shown, the
//! album tree, the song queue and the elapsed-time display.
use vstd::prelude::*;
use crate::mimi::format::{Formatter, has_key, node_keys, node_spans, pairs_view, spans_view};
use crate::mimi::style::{Style, plain_style};
use crate::mimi::text::{push_char, push_str};
use crate::text::{decimal, decimal_string, owned};

verus! {

/// The screen shown above the now-playing line.
#[derive(Debug, Copy, Clone, PartialEq, Eq, Structural)]
pub enum Screen {
    Queue,
    Albums,
}

/// The title of a screen.
pub open spec fn screen_title_text(screen: Screen) -> Seq<char> {
    match screen {
        Screen::Queue => "Queue"@,
        Screen::Albums => "Albums"@,
    }
}

/// The title shown above the screen.
pub fn screen_title(screen: Screen) -> (s: String)
    ensures
        s@ == screen_title_text(screen),
{
    match screen {
        Screen::Queue => owned("Queue"),
        Screen::Albums => owned("Albums"),
    }
}

/// The screen a key switches to: `1` for the queue, `2` for the albums.
pub fn screen_for_key(c: char) -> (s: Option<Screen>)
    ensures
        s == (if c == '1' {
            Some(Screen::Queue)
        } else if c == '2' {
            Some(Screen::Albums)
        } else {
            None
        }),
{
    if c == '1' {
        Some(Screen::Queue)
    } else if c == '2' {
        Some(Screen::Albums)
    } else {
        None
    }
}

/// A song of the queue: its tags.
#[derive(Debug, Clone)]
pub struct Song {
    pub title: Option<String>,
    pub artist: Option<String>,
    pub album: Option<String>,
}

/// A tag's text, or `Unknown`.
pub open spec fn tag_or_unknown(t: Option<String>) -> Seq<char> {
    match t {
        Some(s) => s@,
        None => "Unknown"@,
    }
}

/// The values a song format can use: `title`, `artist` and `album`.
pub open spec fn song_values_view(song: Song) -> Seq<(Seq<char>, Seq<char>)> {
    seq![
        ("title"@, tag_or_unknown(song.title)),
        ("artist"@, tag_or_unknown(song.artist)),
        ("album"@, tag_or_unknown(song.album)),
    ]
}

fn tag_text(t: &Option<String>) -> (s: String)
    ensures
        s@ == tag_or_unknown(*t),
{
    match t {
        Some(s) => s.clone(),
        None => owned("Unknown"),
    }
}

/// The `title`, `artist` and `album` values of a song, `Unknown` where a
/// tag is missing.
pub fn song_values(song: &Song) -> (v: Vec<(String, String)>)
    ensures
        pairs_view(v@) == song_values_view(*song),
{
    let mut v: Vec<(String, String)> = Vec::new();
    v.push((owned("title"), tag_text(&song.title)));
    v.push((owned("artist"), tag_text(&song.artist)));
    v.push((owned("album"), tag_text(&song.album)));
    assert(pairs_view(v@) =~= song_values_view(*song));
    v
}

/// The keys a song format may use.
pub open spec fn song_key(k: Seq<char>) -> bool {
    k == "title"@ || k == "artist"@ || k == "album"@
}

/// The spans drawing a queue: for each song, `> ` before the playing one,
/// the song formatted, and a line break.
pub open spec fn queue_spans(format: crate::mimi::parse::SpecNode, songs: Seq<Song>, position: Option<u32>) -> Seq<(Seq<char>, Style)>
    decreases songs.len(),
{
    if songs.len() == 0 {
        Seq::empty()
    } else {
        let i = songs.len() - 1;
        queue_spans(format, songs.drop_last(), position)
            + (if position == Some(i as u32) {
            seq![("> "@, plain_style())]
        } else {
            Seq::empty()
        }) + node_spans(format, song_values_view(songs.last()), plain_style()) + seq![("\n"@, plain_style())]
    }
}

/// The play queue as a list of formatted songs.
pub struct Queue<'a> {
    queue: Option<Vec<Song>>,
    position: Option<u32>,
    formatter: &'a Formatter,
}

impl<'a> Queue<'a> {
    /// An empty queue whose songs are shown with `formatter`.
    pub fn new(formatter: &'a Formatter) -> (q: Queue<'a>)
        ensures
            q.songs().len() == 0,
            q.position() is None,
            q.format() == formatter.tree(),
    {
        Queue { queue: None, position: None, formatter }
    }

    /// The songs of the queue.
    pub closed spec fn songs(self) -> Seq<Song> {
        match self.queue {
            Some(v) => v@,
            None => Seq::empty(),
        }
    }

    /// The position of the playing song, if any.
    pub closed spec fn position(self) -> Option<u32> {
        self.position
    }

    /// The format songs are shown in.
    pub closed spec fn format(self) -> crate::mimi::parse::SpecNode {
        self.formatter.tree()
    }

    pub fn set_queue(&mut self, queue: Vec<Song>)
        ensures
            final(self).songs() == queue@,
            final(self).position() == old(self).position(),
            final(self).format() == old(self).format(),
    {
        self.queue = Some(queue);
    }

    pub fn set_position(&mut self, position: Option<u32>)
        ensures
            final(self).songs() == old(self).songs(),
            final(self).position() == position,
            final(self).format() == old(self).format(),
    {
        self.position = position;
    }

    /// The styled text of the queue. The format may only use song keys.
    pub fn spans(&self) -> (r: Vec<(String, Style)>)
        requires
            forall|k: Seq<char>| #[trigger] node_keys(self.format()).contains(k) ==> song_key(k),
        ensures
            spans_view(r@) == queue_spans(self.format(), self.songs(), self.position()),
    {
        let empty: Vec<Song> = Vec::new();
        let songs = match &self.queue {
            Some(v) => v,
            None => &empty,
        };
        let mut out: Vec<(String, Style)> = Vec::new();
        let mut i: usize = 0;
        while i < songs.len()
            invariant
                0 <= i <= songs.len(),
                songs@ == self.songs(),
                forall|k: Seq<char>| #[trigger] node_keys(self.format()).contains(k) ==> song_key(k),
                spans_view(out@) == queue_spans(self.format(), songs@.take(i as int), self.position()),
            decreases songs.len() - i,
        {
            let ghost before = spans_view(out@);
            proof {
                let next = songs@.take(i + 1);
                assert(next.drop_last() =~= songs@.take(i as int));
                assert(next.last() == songs@[i as int]);
            }
            let marked = match self.position {
                Some(p) => p == i as u32,
                None => false,
            };
            let ghost mark: Seq<(Seq<char>, Style)> = if self.position() == Some(i as u32) {
                seq![("> "@, plain_style())]
            } else {
                Seq::empty()
            };
            if marked {
                out.push((owned("> "), Style::default()));
            }
            assert(spans_view(out@) =~= before + mark);
            let values = song_values(&songs[i]);
            proof {
                assert forall|k: Seq<char>| #[trigger] node_keys(self.formatter.tree()).contains(k) implies has_key(pairs_view(values@), k) by {
                    assert(song_key(k));
                    if k == "title"@ {
                        assert(pairs_view(values@)[0].0 == k);
                    } else if k == "artist"@ {
                        assert(pairs_view(values@)[1].0 == k);
                    } else {
                        assert(pairs_view(values@)[2].0 == k);
                    }
                }
            }
            let song_spans = self.formatter.spans(values.as_slice());
            let ghost mid = spans_view(out@);
            let mut j: usize = 0;
            while j < song_spans.len()
                invariant
                    0 <= j <= song_spans.len(),
                    spans_view(out@) == mid + spans_view(song_spans@).take(j as int),
                decreases song_spans.len() - j,
            {
                let text = song_spans[j].0.clone();
                let style = song_spans[j].1;
                let ghost pre = spans_view(out@);
                let ghost piece = spans_view(song_spans@)[j as int];
                assert(piece == (text@, style));
                out.push((text, style));
                proof {
                    assert(spans_view(out@) =~= pre.push(piece));
                    assert(spans_view(song_spans@).take(j + 1) =~= spans_view(song_spans@).take(j as int).push(piece));
                }
                j = j + 1;
            }
            assert(spans_view(song_spans@).take(song_spans@.len() as int) =~= spans_view(song_spans@));
            out.push((owned("\n"), Style::default()));
            assert(spans_view(out@) =~= queue_spans(self.format(), songs@.take(i + 1), self.position()));
            i = i + 1;
        }
        assert(songs@.take(songs@.len() as int) =~= songs@);
        out
    }
}

/// `n` as two digits, with a leading zero below ten.
pub open spec fn two_digits(n: nat) -> Seq<char> {
    if n < 10 {
        seq!['0'] + decimal(n)
    } else {
        decimal(n)
    }
}

/// Elapsed time as minutes, a colon, and two digits of seconds.
pub open spec fn elapsed_text_of(seconds: u64) -> Seq<char> {
    decimal((seconds / 60) as nat) + seq![':'] + two_digits((seconds % 60) as nat)
}

/// Elapsed time as `m:ss`.
pub fn elapsed_text(seconds: u64) -> (s: String)
    ensures
        s@ == elapsed_text_of(seconds),
{
    let mut s = decimal_string(seconds / 60);
    push_char(&mut s, ':');
    let secs = seconds % 60;
    if secs < 10 {
        push_char(&mut s, '0');
    }
    let digits = decimal_string(secs);
    push_str(&mut s, &digits);
    s
}

/// All of the albums of the library, as a tree: each album artist,
/// followed by their albums once expanded.
#[derive(Debug)]
pub struct AlbumTree {
    /// All of the album artists in the library.
    album_artists: Vec<String>,
    /// The position of the selected row, if any. It may be one past the
    /// last row.
    selected: Option<usize>,
    /// The expanded album artists with their albums, each artist once.
    albums: Vec<(String, Vec<String>)>,
    /// The rows: an album artist and, for an album row, the album.
    rows: Vec<(String, Option<String>)>,
}

/// The contents of an [`AlbumTree`].
pub struct AlbumTreeView {
    pub album_artists: Seq<Seq<char>>,
    pub selected: Option<usize>,
    pub albums: Seq<(Seq<char>, Seq<Seq<char>>)>,
    pub rows: Seq<(Seq<char>, Option<Seq<char>>)>,
}

pub open spec fn texts(v: Seq<String>) -> Seq<Seq<char>> {
    v.map_values(|s: String| s@)
}

pub open spec fn expanded_view(v: Seq<(String, Vec<String>)>) -> Seq<(Seq<char>, Seq<Seq<char>>)> {
    v.map_values(|e: (String, Vec<String>)| (e.0@, texts(e.1@)))
}

pub open spec fn rows_view(v: Seq<(String, Option<String>)>) -> Seq<(Seq<char>, Option<Seq<char>>)> {
    v.map_values(|r: (String, Option<String>)| (r.0@, crate::order::option_chars(r.1)))
}

impl View for AlbumTree {
    type V = AlbumTreeView;

    closed spec fn view(&self) -> AlbumTreeView {
        AlbumTreeView {
            album_artists: texts(self.album_artists@),
            selected: self.selected,
            albums: expanded_view(self.albums@),
            rows: rows_view(self.rows@),
        }
    }
}

/// Whether `artist` is expanded, and with which albums.
pub open spec fn albums_of(albums: Seq<(Seq<char>, Seq<Seq<char>>)>, artist: Seq<char>) -> Option<Seq<Seq<char>>>
    decreases albums.len(),
{
    if albums.len() == 0 {
        None
    } else if albums.last().0 == artist {
        Some(albums.last().1)
    } else {
        albums_of(albums.drop_last(), artist)
    }
}

/// The rows of the first `n` album artists.
pub open spec fn tree_rows(artists: Seq<Seq<char>>, albums: Seq<(Seq<char>, Seq<Seq<char>>)>, n: int) -> Seq<(Seq<char>, Option<Seq<char>>)>
    decreases n,
{
    if n <= 0 {
        Seq::empty()
    } else {
        let a = artists[n - 1];
        tree_rows(artists, albums, n - 1) + seq![(a, None::<Seq<char>>)] + match albums_of(albums, a) {
            Some(al) => al.map_values(|x: Seq<char>| (a, Some(x))),
            None => Seq::empty(),
        }
    }
}

/// The keys of the expanded artists are distinct.
pub open spec fn distinct_keys(albums: Seq<(Seq<char>, Seq<Seq<char>>)>) -> bool {
    forall|i: int, j: int| 0 <= i < j < albums.len() ==> albums[i].0 != albums[j].0
}

/// What toggling the selected row asks of the caller: the album artist,
/// and whether it will be expanded (its albums must then be fetched).
pub open spec fn toggle_request(v: AlbumTreeView) -> Option<(Seq<char>, bool)> {
    match v.selected {
        None => None,
        Some(s) => Some((v.rows[s as int].0, albums_of(v.albums, v.rows[s as int].0) is None)),
    }
}

/// Toggling took the tree from `old` to `new`, with `fetched` the albums of
/// an artist being expanded: see [`AlbumTree::toggle`].
pub open spec fn tree_toggled(old: AlbumTreeView, new: AlbumTreeView, fetched: Seq<Seq<char>>) -> bool {
    &&& new.album_artists == old.album_artists
    &&& match toggle_request(old) {
                None => new == old,
                Some((artist, true)) => {
                    &&& new.albums == old.albums.push((artist, fetched))
                    &&& new.selected == old.selected
                },
                Some((artist, false)) => {
                    &&& albums_of(new.albums, artist) is None
                    &&& forall|b: Seq<char>| b != artist ==> albums_of(new.albums, b) == albums_of(old.albums, b)
                    &&& old.rows[old.selected->Some_0 as int].1 is Some ==> match new.selected {
                        Some(i) => i < new.rows.len() && new.rows[i as int].0 == artist
                            && forall|k: int| 0 <= k < i ==> (#[trigger] new.rows[k]).0 != artist,
                        None => forall|k: int| 0 <= k < new.rows.len() ==> (#[trigger] new.rows[k]).0 != artist,
                    }
                    &&& old.rows[old.selected->Some_0 as int].1 is None ==> new.selected == old.selected
                },
            }
}

impl AlbumTree {
    /// The rows are those of the album artists and the expanded artists,
    /// and each artist is expanded at most once.
    pub closed spec fn wf(self) -> bool {
        &&& distinct_keys(self@.albums)
        &&& self@.rows == tree_rows(self@.album_artists, self@.albums, self@.album_artists.len() as int)
    }

    /// The tree of the given album artists, none expanded, nothing selected.
    pub fn new(album_artists: Vec<String>) -> (t: AlbumTree)
        ensures
            t.wf(),
            t@.album_artists == texts(album_artists@),
            t@.selected is None,
            t@.albums.len() == 0,
    {
        let mut t = AlbumTree { album_artists, selected: None, albums: Vec::new(), rows: Vec::new() };
        t.compute_rows();
        assert(t@.albums =~= Seq::<(Seq<char>, Seq<Seq<char>>)>::empty());
        t
    }

    /// Moves the selection up: from nothing to the last row; the first row
    /// stays selected.
    pub fn up(&mut self)
        requires
            old(self).wf(),
        ensures
            final(self).wf(),
            old(self)@.album_artists.len() == 0 ==> final(self)@ == old(self)@,
            old(self)@.album_artists.len() > 0 ==> final(self)@ == (AlbumTreeView {
                selected: match old(self)@.selected {
                    None => Some((old(self)@.rows.len() - 1) as usize),
                    Some(n) => Some((if n > 0 { n - 1 } else { 0 }) as usize),
                },
                ..old(self)@
            }),
    {
        if self.album_artists.len() == 0 {
            return;
        }
        proof {
            lemma_tree_rows_len(self@.album_artists, self@.albums, self@.album_artists.len() as int);
        }
        self.selected = match self.selected {
            None => Some(self.rows.len() - 1),
            Some(n) => Some(if n > 0 {
                n - 1
            } else {
                0
            }),
        };
    }

    /// Moves the selection down, at most to one past the last row.
    pub fn down(&mut self)
        requires
            old(self).wf(),
        ensures
            final(self).wf(),
            old(self)@.album_artists.len() == 0 ==> final(self)@ == old(self)@,
            old(self)@.album_artists.len() > 0 ==> final(self)@ == (AlbumTreeView {
                selected: match old(self)@.selected {
                    None => Some(0usize),
                    Some(n) => Some((if n + 1 < old(self)@.rows.len() { n + 1 } else { old(self)@.rows.len() as int }) as usize),
                },
                ..old(self)@
            }),
    {
        if self.album_artists.len() == 0 {
            return;
        }
        self.selected = match self.selected {
            None => Some(0),
            Some(n) => Some(if n < self.rows.len() {
                n + 1
            } else {
                self.rows.len()
            }),
        };
    }

    /// What toggling needs: see [`toggle_request`].
    pub fn toggle_target(&self) -> (r: Option<(String, bool)>)
        requires
            self.wf(),
            self@.selected matches Some(s) ==> s < self@.rows.len(),
        ensures
            match toggle_request(self@) {
                None => r is None,
                Some((a, e)) => r matches Some((s, b)) && s@ == a && b == e,
            },
    {
        match self.selected {
            None => None,
            Some(s) => {
                let artist = self.rows[s].0.clone();
                let expand = find_expanded(&self.albums, &artist).is_none();
                Some((artist, expand))
            },
        }
    }

    /// Toggles whether the album artist of the selected row is expanded:
    /// expanding lists `fetched`, its albums. A collapsed album row moves
    /// the selection to its artist's row.
    pub fn toggle(&mut self, fetched: Vec<String>)
        requires
            old(self).wf(),
            old(self)@.selected matches Some(s) ==> s < old(self)@.rows.len(),
        ensures
            final(self).wf(),
            tree_toggled(old(self)@, final(self)@, texts(fetched@)),
    {
        let selected = match self.selected {
            Some(s) => s,
            None => {
                return;
            },
        };
        let artist = self.rows[selected].0.clone();
        let on_album = self.rows[selected].1.is_some();
        match find_expanded(&self.albums, &artist) {
            None => {
                let ghost before = self@;
                self.albums.push((artist, fetched));
                proof {
                    assert(expanded_view(self.albums@) =~= before.albums.push((artist@, texts(fetched@))));
                    assert(albums_of(self@.albums, artist@) == Some(texts(fetched@)));
                    assert forall|i: int, j: int| 0 <= i < j < self@.albums.len() implies self@.albums[i].0 != self@.albums[j].0 by {
                        if j == self@.albums.len() - 1 {
                            lemma_albums_of_none(before.albums, artist@, i);
                        }
                    }
                }
                self.compute_rows();
            },
            Some(k) => {
                let ghost before = self@;
                self.albums.remove(k);
                proof {
                    lemma_remove_key(before.albums, k as int);
                    assert(expanded_view(self.albums@) =~= before.albums.remove(k as int));
                }
                self.compute_rows();
                if on_album {
                    self.selected = position_of_artist(&self.rows, &artist);
                }
            },
        }
    }

    /// Rebuilds the rows from the album artists and the expanded ones.
    fn compute_rows(&mut self)
        ensures
            final(self)@.rows == tree_rows(old(self)@.album_artists, old(self)@.albums, old(self)@.album_artists.len() as int),
            final(self)@.album_artists == old(self)@.album_artists,
            final(self)@.albums == old(self)@.albums,
            final(self)@.selected == old(self)@.selected,
    {
        let mut rows: Vec<(String, Option<String>)> = Vec::new();
        let mut i: usize = 0;
        while i < self.album_artists.len()
            invariant
                0 <= i <= self.album_artists.len(),
                rows_view(rows@) == tree_rows(self@.album_artists, self@.albums, i as int),
            decreases self.album_artists.len() - i,
        {
            let artist = &self.album_artists[i];
            let ghost before = rows_view(rows@);
            rows.push((artist.clone(), None));
            match find_expanded(&self.albums, artist) {
                Some(k) => {
                    let albums = &self.albums[k].1;
                    let mut j: usize = 0;
                    while j < albums.len()
                        invariant
                            0 <= j <= albums.len(),
                            rows_view(rows@) == before + seq![(artist@, None::<Seq<char>>)] + texts(albums@).take(j as int).map_values(|x: Seq<char>| (artist@, Some(x))),
                        decreases albums.len() - j,
                    {
                        let ghost pre = rows_view(rows@);
                        let ghost row = (artist@, Some(albums@[j as int]@));
                        rows.push((artist.clone(), Some(albums[j].clone())));
                        proof {
                            assert(rows_view(rows@) =~= pre.push(row));
                            assert(texts(albums@).take(j + 1).map_values(|x: Seq<char>| (artist@, Some(x)))
                                =~= texts(albums@).take(j as int).map_values(|x: Seq<char>| (artist@, Some(x))).push(row));
                        }
                        j = j + 1;
                    }
                    assert(texts(albums@).take(albums@.len() as int) =~= texts(albums@));
                },
                None => {
                    assert(rows_view(rows@) =~= before + seq![(artist@, None::<Seq<char>>)]);
                },
            }
            i = i + 1;
        }
        self.rows = rows;
    }
}

/// Where `artist` is among the expanded artists, if it is.
fn find_expanded(albums: &Vec<(String, Vec<String>)>, artist: &String) -> (k: Option<usize>)
    ensures
        match k {
            Some(i) => i < albums@.len() && albums@[i as int].0@ == artist@
                && albums_of(expanded_view(albums@), artist@) == Some(texts(albums@[i as int].1@)),
            None => albums_of(expanded_view(albums@), artist@) is None,
        },
{
    let mut i = albums.len();
    assert(expanded_view(albums@).take(albums@.len() as int) =~= expanded_view(albums@));
    while i > 0
        invariant
            i <= albums@.len(),
            forall|j: int| i <= j < albums@.len() ==> (#[trigger] albums@[j]).0@ != artist@,
            albums_of(expanded_view(albums@), artist@) == albums_of(expanded_view(albums@).take(i as int), artist@),
        decreases i,
    {
        let ghost pre = expanded_view(albums@).take(i as int);
        assert(pre.drop_last() =~= expanded_view(albums@).take(i - 1));
        if albums[i - 1].0 == *artist {
            return Some(i - 1);
        }
        i = i - 1;
    }
    None
}

/// The first row of `artist`, if any.
fn position_of_artist(rows: &Vec<(String, Option<String>)>, artist: &String) -> (r: Option<usize>)
    ensures
        match r {
            Some(i) => i < rows@.len() && rows_view(rows@)[i as int].0 == artist@
                && forall|k: int| 0 <= k < i ==> (#[trigger] rows_view(rows@)[k]).0 != artist@,
            None => forall|k: int| 0 <= k < rows@.len() ==> (#[trigger] rows_view(rows@)[k]).0 != artist@,
        },
{
    let mut i: usize = 0;
    while i < rows.len()
        invariant
            0 <= i <= rows.len(),
            forall|k: int| 0 <= k < i ==> (#[trigger] rows_view(rows@)[k]).0 != artist@,
        decreases rows.len() - i,
    {
        if rows[i].0 == *artist {
            return Some(i);
        }
        i = i + 1;
    }
    None
}

proof fn lemma_tree_rows_len(artists: Seq<Seq<char>>, albums: Seq<(Seq<char>, Seq<Seq<char>>)>, n: int)
    ensures
        tree_rows(artists, albums, n).len() >= n,
    decreases n,
{
    if n > 0 {
        lemma_tree_rows_len(artists, albums, n - 1);
    }
}

proof fn lemma_albums_of_none(albums: Seq<(Seq<char>, Seq<Seq<char>>)>, artist: Seq<char>, i: int)
    requires
        albums_of(albums, artist) is None,
        0 <= i < albums.len(),
    ensures
        albums[i].0 != artist,
    decreases albums.len(),
{
    if i < albums.len() - 1 {
        lemma_albums_of_none(albums.drop_last(), artist, i);
    }
}

/// Removing the entry of one key from entries with distinct keys: the key
/// is gone, the other keys keep their entries, and keys stay distinct.
proof fn lemma_remove_key(albums: Seq<(Seq<char>, Seq<Seq<char>>)>, k: int)
    requires
        distinct_keys(albums),
        0 <= k < albums.len(),
    ensures
        distinct_keys(albums.remove(k)),
        albums_of(albums.remove(k), albums[k].0) is None,
        forall|b: Seq<char>| b != albums[k].0 ==> albums_of(albums.remove(k), b) == albums_of(albums, b),
    decreases albums.len(),
{
    let r = albums.remove(k);
    assert forall|i: int, j: int| 0 <= i < j < r.len() implies r[i].0 != r[j].0 by {
        let i2 = if i < k { i } else { i + 1 };
        let j2 = if j < k { j } else { j + 1 };
        assert(r[i] == albums[i2] && r[j] == albums[j2]);
    }
    if k == albums.len() - 1 {
        assert(r =~= albums.drop_last());
        lemma_albums_of_absent(albums.drop_last(), albums[k].0);
        assert forall|b: Seq<char>| b != albums[k].0 implies albums_of(r, b) == albums_of(albums, b) by {
            assert(albums.last().0 != b);
        }
    } else {
        assert(albums.drop_last()[k] == albums[k]);
        lemma_remove_key(albums.drop_last(), k);
        assert(r.drop_last() =~= albums.drop_last().remove(k));
        assert(r.last() == albums.last());
        assert(albums.last().0 != albums[k].0);
        assert forall|b: Seq<char>| b != albums[k].0 implies albums_of(r, b) == albums_of(albums, b) by {
            assert(r.len() > 0);
            if albums.last().0 != b {
                assert(albums_of(r, b) == albums_of(r.drop_last(), b));
                assert(albums_of(albums.drop_last().remove(k), b) == albums_of(albums.drop_last(), b));
                assert(albums_of(albums, b) == albums_of(albums.drop_last(), b));
            } else {
                assert(albums_of(r, b) == Some(r.last().1));
                assert(albums_of(albums, b) == Some(albums.last().1));
            }
        }
    }
}

/// A key none of the entries has is not found.
proof fn lemma_albums_of_absent(albums: Seq<(Seq<char>, Seq<Seq<char>>)>, artist: Seq<char>)
    requires
        forall|i: int| 0 <= i < albums.len() ==> (#[trigger] albums[i]).0 != artist,
    ensures
        albums_of(albums, artist) is None,
    decreases albums.len(),
{
    if albums.len() > 0 {
        lemma_albums_of_absent(albums.drop_last(), artist);
    }
}

} // verus!
