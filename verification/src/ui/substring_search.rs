//! Search by name: artists, albums and tracks whose name contains the
//! query, ignoring case.
use std::sync::Arc;
use vstd::prelude::*;
use crate::library::{Album, Artist, ArtistName, AlbumName, Library, Track, album_pairs, album_tracks};
use crate::mimi::text::str_chars;
use crate::order::option_chars;
use crate::play_queue::share;

verus! {

/// The lowercase form of a string, as Unicode defines it.
pub uninterp spec fn lowercased(s: Seq<char>) -> Seq<char>;

/// Calls `str::to_lowercase`. Claimed: the result depends on the text
/// alone, named [`lowercased`].
#[verifier::external_body]
fn lowercase(s: &str) -> (r: String)
    ensures
        r@ == lowercased(s@),
{
    s.to_lowercase()
}

/// `needle` occurs in `haystack` at position `i`.
pub open spec fn occurs_at(haystack: Seq<char>, needle: Seq<char>, i: int) -> bool {
    0 <= i && i + needle.len() <= haystack.len() && haystack.subrange(i, i + needle.len()) == needle
}

/// `needle` occurs somewhere in `haystack`.
pub open spec fn contains_text(haystack: Seq<char>, needle: Seq<char>) -> bool {
    exists|i: int| #[trigger] occurs_at(haystack, needle, i)
}

/// A name matches the query when, both lowercased, the query occurs in it.
pub open spec fn name_matches(name: Seq<char>, query: Seq<char>) -> bool {
    contains_text(lowercased(name), lowercased(query))
}

fn occurs_at_exec(haystack: &Vec<char>, needle: &Vec<char>, i: usize) -> (b: bool)
    requires
        i + needle@.len() <= haystack@.len(),
    ensures
        b == occurs_at(haystack@, needle@, i as int),
{
    let hl = haystack.len();
    let mut k: usize = 0;
    while k < needle.len()
        invariant
            0 <= k <= needle.len(),
            hl == haystack@.len(),
            i + needle@.len() <= haystack@.len(),
            forall|m: int| 0 <= m < k ==> haystack@[i + m] == needle@[m],
        decreases needle.len() - k,
    {
        if haystack[i + k] != needle[k] {
            assert(haystack@.subrange(i as int, i + needle@.len())[k as int] != needle@[k as int]);
            return false;
        }
        k = k + 1;
    }
    assert(haystack@.subrange(i as int, i + needle@.len()) =~= needle@);
    true
}

/// Whether `needle` occurs in `haystack`.
fn contains_chars(haystack: &Vec<char>, needle: &Vec<char>) -> (b: bool)
    ensures
        b == contains_text(haystack@, needle@),
{
    if needle.len() > haystack.len() {
        assert forall|i: int| !#[trigger] occurs_at(haystack@, needle@, i) by {}
        return false;
    }
    let last = haystack.len() - needle.len();
    let mut i: usize = 0;
    loop
        invariant
            last + needle@.len() == haystack@.len(),
            0 <= i <= last,
            forall|j: int| 0 <= j < i ==> !#[trigger] occurs_at(haystack@, needle@, j),
        decreases last - i,
    {
        if occurs_at_exec(haystack, needle, i) {
            return true;
        }
        if i == last {
            assert forall|j: int| !#[trigger] occurs_at(haystack@, needle@, j) by {
                if 0 <= j && j + needle@.len() <= haystack@.len() {
                    assert(j <= i);
                }
            }
            return false;
        }
        i = i + 1;
    }
}

/// Whether `name` matches `query`.
fn matches_query(name: &String, query: &Vec<char>, lowered_query: Ghost<Seq<char>>) -> (b: bool)
    requires
        query@ == lowered_query@,
    ensures
        b == contains_text(lowercased(name@), lowered_query@),
{
    let hay = str_chars(lowercase(name.as_str()).as_str());
    contains_chars(&hay, query)
}

/// Something in the library that matches a search.
#[derive(Debug)]
pub enum SearchResult {
    Artist(ArtistName),
    /// An album, with its artist.
    Album(AlbumName, ArtistName),
    Track(Arc<Track>),
}

impl SearchResult {
    /// The artist the result belongs to.
    pub fn album_artist(&self) -> (a: &ArtistName)
        ensures
            *a == match *self {
                SearchResult::Artist(artist) => artist,
                SearchResult::Album(_, artist) => artist,
                SearchResult::Track(track) => track.artist,
            },
    {
        match self {
            SearchResult::Artist(artist) => artist,
            SearchResult::Album(_, artist) => artist,
            SearchResult::Track(track) => &track.artist,
        }
    }

    /// The album the result belongs to; none for an artist.
    pub fn album(&self) -> (a: Option<&AlbumName>)
        ensures
            match *self {
                SearchResult::Artist(_) => a is None,
                SearchResult::Album(album, _) => a == Some(&album),
                SearchResult::Track(track) => a == Some(&track.album),
            },
    {
        match self {
            SearchResult::Artist(_) => None,
            SearchResult::Album(album, _) => Some(album),
            SearchResult::Track(track) => Some(&track.album),
        }
    }

    /// The title of a track result.
    pub fn track_title(&self) -> (t: Option<&String>)
        ensures
            match *self {
                SearchResult::Track(track) => t == match track.title {
                    Some(s) => Some(&s),
                    None => None::<&String>,
                },
                _ => t is None,
            },
    {
        match self {
            SearchResult::Track(track) => match &track.title {
                Some(s) => Some(s),
                None => None,
            },
            _ => None,
        }
    }

    /// A copy of the result.
    pub fn duplicate(&self) -> (c: SearchResult)
        ensures
            c == *self,
    {
        match self {
            SearchResult::Artist(artist) => SearchResult::Artist(artist.clone_name()),
            SearchResult::Album(album, artist) => SearchResult::Album(album.clone_name(), artist.clone_name()),
            SearchResult::Track(track) => SearchResult::Track(share(track)),
        }
    }
}

/// The named artists whose name matches, in library order.
pub open spec fn artist_results(artists: Seq<Artist>, query: Seq<char>) -> Seq<SearchResult>
    decreases artists.len(),
{
    if artists.len() == 0 {
        Seq::empty()
    } else {
        artist_results(artists.drop_last(), query) + match artists.last().name {
            ArtistName::Artist(n) => if name_matches(n@, query) {
                seq![SearchResult::Artist(artists.last().name)]
            } else {
                Seq::empty()
            },
            ArtistName::Unknown => Seq::empty(),
        }
    }
}

/// The named albums whose name matches, with their artists.
pub open spec fn album_results(pairs: Seq<(Album, Artist)>, query: Seq<char>) -> Seq<SearchResult>
    decreases pairs.len(),
{
    if pairs.len() == 0 {
        Seq::empty()
    } else {
        let p = pairs.last();
        album_results(pairs.drop_last(), query) + match option_chars(p.0.name.0) {
            Some(n) => if name_matches(n, query) {
                seq![SearchResult::Album(p.0.name, p.1.name)]
            } else {
                Seq::empty()
            },
            None => Seq::empty(),
        }
    }
}

/// The titled tracks whose title matches.
pub open spec fn track_results(tracks: Seq<Arc<Track>>, query: Seq<char>) -> Seq<SearchResult>
    decreases tracks.len(),
{
    if tracks.len() == 0 {
        Seq::empty()
    } else {
        let t = tracks.last();
        track_results(tracks.drop_last(), query) + match option_chars(t.title) {
            Some(n) => if name_matches(n, query) {
                seq![SearchResult::Track(t)]
            } else {
                Seq::empty()
            },
            None => Seq::empty(),
        }
    }
}

/// Everything in the library of `artists` that matches `query`: artists,
/// then albums, then tracks.
pub open spec fn search_results(artists: Seq<Artist>, query: Seq<char>) -> Seq<SearchResult> {
    artist_results(artists, query) + album_results(album_pairs(artists), query)
        + track_results(album_tracks(album_pairs(artists)), query)
}

/// The query and what matched it.
#[derive(Debug)]
pub struct Search {
    query: String,
    results: Vec<SearchResult>,
}

impl Default for Search {
    /// An empty query with no results.
    fn default() -> (s: Search)
        ensures
            s.query_view().len() == 0,
            s.results_view().len() == 0,
    {
        Search { query: String::new(), results: Vec::new() }
    }
}

impl Search {
    pub closed spec fn query_view(self) -> Seq<char> {
        self.query@
    }

    pub closed spec fn results_view(self) -> Seq<SearchResult> {
        self.results@
    }

    /// The current query.
    pub fn query(&self) -> (q: &str)
        ensures
            q@ == self.query_view(),
    {
        self.query.as_str()
    }

    /// The results.
    pub fn results(&self) -> (r: &Vec<SearchResult>)
        ensures
            r@ == self.results_view(),
    {
        &self.results
    }

    /// The first result, if any.
    pub fn selected_result(&self) -> (r: Option<SearchResult>)
        ensures
            self.results_view().len() == 0 ==> r is None,
            self.results_view().len() > 0 ==> r == Some(self.results_view()[0]),
    {
        if self.results.len() == 0 {
            None
        } else {
            Some(self.results[0].duplicate())
        }
    }

    /// Searches `library` for `query`.
    pub fn run_query(&mut self, library: &Library, query: &str)
        ensures
            final(self).query_view() == query@,
            final(self).results_view() == search_results(library.artists@, query@),
    {
        let lowered = str_chars(lowercase(query).as_str());
        let ghost lq = lowercased(query@);
        let mut results: Vec<SearchResult> = Vec::new();
        let artists = library.artists();
        let mut i: usize = 0;
        while i < artists.len()
            invariant
                0 <= i <= artists.len(),
                artists@ == library.artists@,
                lowered@ == lq,
                lq == lowercased(query@),
                results@ == artist_results(artists@.take(i as int), query@),
            decreases artists.len() - i,
        {
            proof {
                let next = artists@.take(i + 1);
                assert(next.drop_last() =~= artists@.take(i as int));
            }
            match &artists[i].name {
                ArtistName::Artist(n) => {
                    if matches_query(n, &lowered, Ghost(lq)) {
                        results.push(SearchResult::Artist(artists[i].name.clone_name()));
                    }
                },
                ArtistName::Unknown => {},
            }
            i = i + 1;
        }
        assert(artists@.take(artists@.len() as int) =~= artists@);
        let ghost first = results@;
        let pairs = library.albums_with_artist();
        let ghost ap = album_pairs(library.artists@);
        let mut k: usize = 0;
        while k < pairs.len()
            invariant
                0 <= k <= pairs.len(),
                pairs@.len() == ap.len(),
                forall|m: int| 0 <= m < pairs@.len() ==> (*(#[trigger] pairs@[m]).0, *pairs@[m].1) == ap[m],
                lowered@ == lq,
                lq == lowercased(query@),
                results@ == first + album_results(ap.take(k as int), query@),
            decreases pairs.len() - k,
        {
            proof {
                let next = ap.take(k + 1);
                assert(next.drop_last() =~= ap.take(k as int));
            }
            let (album, artist) = pairs[k];
            match &album.name.0 {
                Some(n) => {
                    if matches_query(n, &lowered, Ghost(lq)) {
                        results.push(SearchResult::Album(album.name.clone_name(), artist.name.clone_name()));
                    }
                },
                None => {},
            }
            k = k + 1;
        }
        assert(ap.take(ap.len() as int) =~= ap);
        let ghost second = results@;
        let tracks = library.tracks();
        let mut t: usize = 0;
        while t < tracks.len()
            invariant
                0 <= t <= tracks.len(),
                tracks@ == album_tracks(ap),
                lowered@ == lq,
                lq == lowercased(query@),
                results@ == second + track_results(tracks@.take(t as int), query@),
            decreases tracks.len() - t,
        {
            proof {
                let next = tracks@.take(t + 1);
                assert(next.drop_last() =~= tracks@.take(t as int));
            }
            match &tracks[t].title {
                Some(n) => {
                    if matches_query(n, &lowered, Ghost(lq)) {
                        results.push(SearchResult::Track(share(&tracks[t])));
                    }
                },
                None => {},
            }
            t = t + 1;
        }
        assert(tracks@.take(tracks@.len() as int) =~= tracks@);
        self.query = query.to_string();
        self.results = results;
    }
}

} // verus!
