//! Fuzzy search over the library: artist names, album names and track
//! titles, best matches first.
use std::sync::Arc;
use vstd::prelude::*;
use nucleo_matcher::pattern::{CaseMatching, Normalization, Pattern};
use crate::library::{Album, Artist, ArtistName, AlbumName, Library, Track, album_pairs, album_tracks, display_name};
use crate::mimi::text::push_char;
use crate::order::{is_permutation_of_range, option_chars, stable_before, stable_sort_indices, stably_sorted, strict_weak_order};
use crate::play_queue::share;
use crate::ui::artist_album_list::{clamp_add_signed, saturating_add_signed};

verus! {

/// What the fuzzy matcher makes of `haystack` for the search `query`: the
/// score and the positions of the matched characters, or nothing when it
/// doesn't match.
pub uninterp spec fn fuzzy_match(query: Seq<char>, haystack: Seq<char>) -> Option<(u32, Seq<u32>)>;

/// The characters the matcher works on for `haystack`, one per grapheme;
/// the positions of [`fuzzy_match`] index into them.
pub uninterp spec fn matcher_chars(haystack: Seq<char>) -> Seq<char>;

/// Every character of `s` is ASCII.
pub open spec fn all_ascii(s: Seq<char>) -> bool {
    forall|i: int| 0 <= i < s.len() ==> (#[trigger] s[i] as u32) < 128
}

/// Runs `nucleo_matcher`'s `Pattern::parse(query, CaseMatching::Ignore,
/// Normalization::Smart)` and then `Pattern::indices` against `haystack`
/// with a matcher in the default configuration. Claimed: the result is a
/// function of the query and the haystack alone, named [`fuzzy_match`].
#[verifier::external_body]
fn fuzzy_indices(query: &str, haystack: &str) -> (r: Option<(u32, Vec<u32>)>)
    ensures
        match r {
            None => fuzzy_match(query@, haystack@) is None,
            Some(m) => fuzzy_match(query@, haystack@) == Some((m.0, m.1@)),
        },
{
    let pattern = Pattern::parse(query, CaseMatching::Ignore, Normalization::Smart);
    let text = nucleo_matcher::Utf32String::from(haystack);
    let mut matcher = nucleo_matcher::Matcher::new(nucleo_matcher::Config::DEFAULT);
    let mut indices: Vec<u32> = Vec::new();
    let score = pattern.indices(text.slice(..), &mut matcher, &mut indices)?;
    Some((score, indices))
}

/// The characters of `nucleo_matcher::Utf32String::from(haystack)`.
/// Claimed: a function of the haystack, named [`matcher_chars`]; an ASCII
/// haystack is kept as it is (the crate stores it as its bytes).
#[verifier::external_body]
fn matcher_text(haystack: &str) -> (r: Vec<char>)
    ensures
        r@ == matcher_chars(haystack@),
        all_ascii(haystack@) ==> r@ == haystack@,
{
    nucleo_matcher::Utf32String::from(haystack).slice(..).chars().collect()
}

/// Something in the library that a search can find.
#[derive(Debug)]
pub enum SearchItem {
    Artist(ArtistName),
    /// An album, with its artist.
    Album(AlbumName, ArtistName),
    Track(Arc<Track>),
}

/// The text an item is matched against: the artist's or album's name as
/// shown, or the track's title (a track without one never matches).
pub open spec fn item_haystack(item: SearchItem) -> Option<Seq<char>> {
    match item {
        SearchItem::Artist(artist) => Some(display_name(artist@)),
        SearchItem::Album(album, _) => Some(display_name(album@)),
        SearchItem::Track(track) => option_chars(track.title),
    }
}

/// One character of a result, and whether it was part of the match.
#[derive(Debug)]
pub struct SearchTextSegment {
    pub text: String,
    pub matched: bool,
}

/// An item that matched, with its score and its text split into characters.
#[derive(Debug)]
pub struct SearchResult {
    pub item: SearchItem,
    pub score: u32,
    pub segments: Vec<SearchTextSegment>,
}

/// The contents of a [`SearchResult`].
pub struct SearchResultView {
    pub item: SearchItem,
    pub score: u32,
    pub segments: Seq<(Seq<char>, bool)>,
}

pub open spec fn segment_views(s: Seq<SearchTextSegment>) -> Seq<(Seq<char>, bool)> {
    s.map_values(|g: SearchTextSegment| (g.text@, g.matched))
}

impl View for SearchResult {
    type V = SearchResultView;

    open spec fn view(&self) -> SearchResultView {
        SearchResultView { item: self.item, score: self.score, segments: segment_views(self.segments@) }
    }
}

/// The characters of a match, each marked with whether its position is
/// among the matched `indices`.
pub open spec fn segments_for(chars: Seq<char>, indices: Seq<u32>) -> Seq<(Seq<char>, bool)> {
    Seq::new(chars.len(), |i: int| (seq![chars[i]], indices.contains(i as u32)))
}

/// The result for `item` when searching for `query`, if it matches.
pub open spec fn match_result(item: SearchItem, query: Seq<char>) -> Option<SearchResultView> {
    match item_haystack(item) {
        None => None,
        Some(h) => match fuzzy_match(query, h) {
            None => None,
            Some(m) => Some(SearchResultView { item, score: m.0, segments: segments_for(matcher_chars(h), m.1) }),
        },
    }
}

/// The results for the items that match, in the items' order.
pub open spec fn matching(items: Seq<SearchItem>, query: Seq<char>) -> Seq<SearchResultView>
    decreases items.len(),
{
    if items.len() == 0 {
        Seq::empty()
    } else {
        matching(items.drop_last(), query) + match match_result(items.last(), query) {
            Some(r) => seq![r],
            None => Seq::empty(),
        }
    }
}

/// What a search looks through: every artist, then every album with its
/// artist, then every track.
pub open spec fn search_items(artists: Seq<Artist>) -> Seq<SearchItem> {
    artists.map_values(|a: Artist| SearchItem::Artist(a.name))
        + album_pairs(artists).map_values(|p: (Album, Artist)| SearchItem::Album(p.0.name, p.1.name))
        + album_tracks(album_pairs(artists)).map_values(|t: Arc<Track>| SearchItem::Track(t))
}

/// Higher scores first, as an order on positions.
pub open spec fn by_score(results: Seq<SearchResultView>) -> spec_fn(int, int) -> bool {
    |i: int, j: int| results[i].score > results[j].score
}

/// `out` is `results` sorted by descending score, keeping the order of equal
/// scores.
pub open spec fn ranked(results: Seq<SearchResultView>, out: Seq<SearchResultView>) -> bool {
    exists|p: Seq<usize>|
        is_permutation_of_range(p, results.len() as int) && stably_sorted(by_score(results), p)
            && out.len() == p.len() && forall|k: int| 0 <= k < p.len() ==> #[trigger] out[k] == results[p[k] as int]
}

/// `search` holds the results of searching the library of `artists` for
/// `query`: every artist, album and track that matches, the best scores
/// first (equal scores in library order), with the first result selected.
pub open spec fn query_outcome(artists: Seq<Artist>, query: Seq<char>, search: SearchView) -> bool {
    &&& search.query == query
    &&& ranked(matching(search_items(artists), query), search.results)
    &&& search.selected == (if search.results.len() == 0 {
        None
    } else {
        Some(0usize)
    })
}

impl SearchItem {
    /// The artist the item belongs to.
    pub fn album_artist(&self) -> (a: &ArtistName)
        ensures
            *a == match *self {
                SearchItem::Artist(artist) => artist,
                SearchItem::Album(_, artist) => artist,
                SearchItem::Track(track) => track.artist,
            },
    {
        match self {
            SearchItem::Artist(artist) => artist,
            SearchItem::Album(_, artist) => artist,
            SearchItem::Track(track) => &track.artist,
        }
    }

    /// The album the item belongs to; none for an artist.
    pub fn album(&self) -> (a: Option<&AlbumName>)
        ensures
            match *self {
                SearchItem::Artist(_) => a is None,
                SearchItem::Album(album, _) => a == Some(&album),
                SearchItem::Track(track) => a == Some(&track.album),
            },
    {
        match self {
            SearchItem::Artist(_) => None,
            SearchItem::Album(album, _) => Some(album),
            SearchItem::Track(track) => Some(&track.album),
        }
    }

    /// The title of a track; none for anything else.
    pub fn track_title(&self) -> (t: Option<&String>)
        ensures
            match *self {
                SearchItem::Track(track) => t == match track.title {
                    Some(s) => Some(&s),
                    None => None::<&String>,
                },
                _ => t is None,
            },
    {
        match self {
            SearchItem::Track(track) => match &track.title {
                Some(s) => Some(s),
                None => None,
            },
            _ => None,
        }
    }

    /// The text the item is matched against.
    fn haystack(&self) -> (h: Option<String>)
        ensures
            option_chars(h) == item_haystack(*self),
    {
        match self {
            SearchItem::Artist(artist) => Some(artist.display()),
            SearchItem::Album(album, _) => Some(album.display()),
            SearchItem::Track(track) => match &track.title {
                Some(s) => Some(s.clone()),
                None => None,
            },
        }
    }

    /// A copy of the item.
    pub fn duplicate(&self) -> (c: SearchItem)
        ensures
            c == *self,
    {
        match self {
            SearchItem::Artist(artist) => SearchItem::Artist(artist.clone_name()),
            SearchItem::Album(album, artist) => SearchItem::Album(album.clone_name(), artist.clone_name()),
            SearchItem::Track(track) => SearchItem::Track(share(track)),
        }
    }

    /// Matches the item against `query`: the result, if it matches.
    pub fn match_against(self, query: &str) -> (r: Option<SearchResult>)
        ensures
            match r {
                None => match_result(self, query@) is None,
                Some(res) => match_result(self, query@) == Some(res@),
            },
    {
        let haystack = match self.haystack() {
            Some(h) => h,
            None => {
                return None;
            },
        };
        let m = match fuzzy_indices(query, haystack.as_str()) {
            Some(m) => m,
            None => {
                return None;
            },
        };
        let chars = matcher_text(haystack.as_str());
        let (score, indices) = m;
        Some(SearchResult::from_match(self, &chars, score, &indices))
    }
}

fn char_string(c: char) -> (s: String)
    ensures
        s@ == seq![c],
{
    let mut s = String::new();
    push_char(&mut s, c);
    assert(s@ =~= seq![c]);
    s
}

fn contains_u32(v: &Vec<u32>, x: u32) -> (b: bool)
    ensures
        b == v@.contains(x),
{
    let mut i: usize = 0;
    while i < v.len()
        invariant
            0 <= i <= v.len(),
            forall|k: int| 0 <= k < i ==> v@[k] != x,
        decreases v.len() - i,
    {
        if v[i] == x {
            assert(v@[i as int] == x);
            return true;
        }
        i = i + 1;
    }
    false
}

impl SearchResult {
    /// The result for `item`, given what the matcher reported: the
    /// characters it matched against, the score and the matched positions.
    pub fn from_match(item: SearchItem, chars: &Vec<char>, score: u32, indices: &Vec<u32>) -> (r: SearchResult)
        ensures
            r@ == (SearchResultView { item, score, segments: segments_for(chars@, indices@) }),
    {
        let mut segments: Vec<SearchTextSegment> = Vec::new();
        let mut i: usize = 0;
        while i < chars.len()
            invariant
                0 <= i <= chars.len(),
                segments@.len() == i,
                forall|k: int| 0 <= k < i ==> (#[trigger] segments@[k]).text@ == seq![chars@[k]]
                    && segments@[k].matched == indices@.contains(k as u32),
            decreases chars.len() - i,
        {
            let matched = contains_u32(indices, i as u32);
            segments.push(SearchTextSegment { text: char_string(chars[i]), matched });
            i = i + 1;
        }
        let r = SearchResult { item, score, segments };
        assert(segment_views(r.segments@) =~= segments_for(chars@, indices@));
        r
    }

    /// A copy of the result.
    pub fn duplicate(&self) -> (c: SearchResult)
        ensures
            c@ == self@,
    {
        let mut segments: Vec<SearchTextSegment> = Vec::new();
        let mut i: usize = 0;
        while i < self.segments.len()
            invariant
                0 <= i <= self.segments.len(),
                segments@.len() == i,
                forall|k: int| 0 <= k < i ==> (#[trigger] segments@[k]).text@ == self.segments@[k].text@
                    && segments@[k].matched == self.segments@[k].matched,
            decreases self.segments.len() - i,
        {
            let text = self.segments[i].text.clone();
            segments.push(SearchTextSegment { text, matched: self.segments[i].matched });
            i = i + 1;
        }
        let c = SearchResult { item: self.item.duplicate(), score: self.score, segments };
        assert(segment_views(c.segments@) =~= segment_views(self.segments@));
        c
    }
}

/// The state of the search panel: the query, its results, and the selected
/// result.
#[derive(Debug)]
pub struct Search {
    query: String,
    results: Vec<SearchResult>,
    selected: Option<usize>,
}

/// The contents of a [`Search`].
pub struct SearchView {
    pub query: Seq<char>,
    pub results: Seq<SearchResultView>,
    pub selected: Option<usize>,
}

pub open spec fn result_views(v: Seq<SearchResult>) -> Seq<SearchResultView> {
    v.map_values(|r: SearchResult| r@)
}

impl View for Search {
    type V = SearchView;

    closed spec fn view(&self) -> SearchView {
        SearchView { query: self.query@, results: result_views(self.results@), selected: self.selected }
    }
}

impl Default for Search {
    /// An empty query with no results.
    fn default() -> (s: Search)
        ensures
            s.wf(),
            s@.query.len() == 0,
            s@.results.len() == 0,
            s@.selected is None,
    {
        let s = Search { query: String::new(), results: Vec::new(), selected: None };
        assert(s@.results =~= Seq::<SearchResultView>::empty());
        s
    }
}

/// Higher numbers first, as an order on positions.
pub open spec fn descending(scores: Seq<u32>) -> spec_fn(int, int) -> bool {
    |i: int, j: int| scores[i] > scores[j]
}

proof fn lemma_scores_strict_weak(scores: Seq<u32>)
    ensures
        strict_weak_order(descending(scores), scores.len() as int),
{
}

impl Search {
    /// The selection is one of the results.
    pub closed spec fn wf(self) -> bool {
        self.selected matches Some(i) ==> i < self.results@.len()
    }

    /// The current query.
    pub fn query(&self) -> (q: &str)
        ensures
            q@ == self@.query,
    {
        self.query.as_str()
    }

    /// The results, best first.
    pub fn results(&self) -> (r: &Vec<SearchResult>)
        ensures
            result_views(r@) == self@.results,
    {
        &self.results
    }

    /// The position of the selected result, if any.
    pub fn selected(&self) -> (s: Option<usize>)
        ensures
            s == self@.selected,
    {
        self.selected
    }

    /// The item of the selected result, if any.
    pub fn selected_item(&self) -> (r: Option<SearchItem>)
        requires
            self.wf(),
        ensures
            match self@.selected {
                None => r is None,
                Some(i) => r == Some(self@.results[i as int].item),
            },
    {
        match self.selected {
            None => None,
            Some(i) => Some(self.results[i].item.duplicate()),
        }
    }

    /// Moves the selection by `delta`, staying within the results. Does
    /// nothing when nothing is selected.
    pub fn move_cursor(&mut self, delta: isize)
        requires
            old(self).wf(),
        ensures
            final(self).wf(),
            final(self)@.query == old(self)@.query,
            final(self)@.results == old(self)@.results,
            final(self)@.selected == match old(self)@.selected {
                None => None,
                Some(s) => Some((if saturating_add_signed(s, delta) < old(self)@.results.len() - 1 {
                    saturating_add_signed(s, delta)
                } else {
                    old(self)@.results.len() - 1
                }) as usize),
            },
    {
        if let Some(s) = self.selected {
            self.selected = Some(clamp_add_signed(s, delta, self.results.len() - 1));
        }
    }

    /// Searches `library` for `query`: every artist, album and track that
    /// matches, the best scores first (equal scores in library order), with
    /// the first result selected.
    pub fn run_query(&mut self, library: &Library, query: &str)
        ensures
            final(self).wf(),
            query_outcome(library.artists@, query@, final(self)@),
    {
        let items = collect_items(library);
        let ghost all = search_items(library.artists@);
        let mut matched: Vec<SearchResult> = Vec::new();
        let mut i: usize = 0;
        while i < items.len()
            invariant
                0 <= i <= items.len(),
                items@ == all,
                result_views(matched@) == matching(all.take(i as int), query@),
            decreases items.len() - i,
        {
            let ghost before = matched@;
            proof {
                let next = all.take(i + 1);
                assert(next.drop_last() =~= all.take(i as int));
                assert(next.last() == all[i as int]);
            }
            match items[i].duplicate().match_against(query) {
                Some(r) => {
                    matched.push(r);
                    assert(result_views(matched@) =~= result_views(before).push(matched@.last()@));
                },
                None => {},
            }
            i = i + 1;
        }
        assert(all.take(items@.len() as int) =~= all);
        let ghost mv = result_views(matched@);
        let mut scores: Vec<u32> = Vec::new();
        let mut k: usize = 0;
        while k < matched.len()
            invariant
                0 <= k <= matched.len(),
                mv == result_views(matched@),
                scores@.len() == k,
                forall|m: int| 0 <= m < k ==> #[trigger] scores@[m] == mv[m].score,
            decreases matched.len() - k,
        {
            scores.push(matched[k].score);
            k = k + 1;
        }
        let ghost sc = scores@;
        proof {
            lemma_scores_strict_weak(sc);
        }
        let n = matched.len();
        let less = |a: usize, b: usize| -> (r: bool)
            requires
                a < scores.len(),
                b < scores.len(),
            ensures
                r == (scores@[a as int] > scores@[b as int]),
            { scores[a] > scores[b] };
        let p = stable_sort_indices(n, less, Ghost(descending(sc)));
        let mut results: Vec<SearchResult> = Vec::new();
        let mut j: usize = 0;
        while j < p.len()
            invariant
                0 <= j <= p.len(),
                n == matched.len(),
                mv == result_views(matched@),
                is_permutation_of_range(p@, n as int),
                results@.len() == j,
                forall|m: int| 0 <= m < j ==> (#[trigger] results@[m])@ == mv[p@[m] as int],
            decreases p.len() - j,
        {
            results.push(matched[p[j]].duplicate());
            j = j + 1;
        }
        proof {
            assert forall|a: int, b: int| 0 <= a < b < p@.len() implies stable_before(by_score(mv), #[trigger] p@[a] as int, #[trigger] p@[b] as int) by {
                assert(stable_before(descending(sc), p@[a] as int, p@[b] as int));
                assert(sc[p@[a] as int] == mv[p@[a] as int].score);
                assert(sc[p@[b] as int] == mv[p@[b] as int].score);
            }
            let out = result_views(results@);
            assert forall|m: int| 0 <= m < p@.len() implies #[trigger] out[m] == mv[p@[m] as int] by {
                assert(out[m] == results@[m]@);
            }
        }
        self.query = query.to_string();
        let empty = results.len() == 0;
        self.results = results;
        self.selected = if empty {
            None
        } else {
            Some(0)
        };
    }
}

/// The artists, then the albums with their artists, then the tracks.
fn collect_items(library: &Library) -> (items: Vec<SearchItem>)
    ensures
        items@ == search_items(library.artists@),
{
    let mut items: Vec<SearchItem> = Vec::new();
    let artists = library.artists();
    let mut i: usize = 0;
    while i < artists.len()
        invariant
            0 <= i <= artists.len(),
            artists@ == library.artists@,
            items@ == library.artists@.take(i as int).map_values(|a: Artist| SearchItem::Artist(a.name)),
        decreases artists.len() - i,
    {
        items.push(SearchItem::Artist(artists[i].name.clone_name()));
        i = i + 1;
        assert(items@ =~= library.artists@.take(i as int).map_values(|a: Artist| SearchItem::Artist(a.name)));
    }
    assert(library.artists@.take(library.artists@.len() as int) =~= library.artists@);
    let ghost first = items@;
    let pairs = library.albums_with_artist();
    let ghost ap = album_pairs(library.artists@);
    let mut k: usize = 0;
    while k < pairs.len()
        invariant
            0 <= k <= pairs.len(),
            pairs@.len() == ap.len(),
            forall|m: int| 0 <= m < pairs@.len() ==> (*(#[trigger] pairs@[m]).0, *pairs@[m].1) == ap[m],
            items@ == first + ap.take(k as int).map_values(|p: (Album, Artist)| SearchItem::Album(p.0.name, p.1.name)),
        decreases pairs.len() - k,
    {
        let (album, artist) = pairs[k];
        items.push(SearchItem::Album(album.name.clone_name(), artist.name.clone_name()));
        k = k + 1;
        assert(items@ =~= first + ap.take(k as int).map_values(|p: (Album, Artist)| SearchItem::Album(p.0.name, p.1.name)));
    }
    assert(ap.take(ap.len() as int) =~= ap);
    let ghost second = items@;
    let tracks = library.tracks();
    let mut t: usize = 0;
    while t < tracks.len()
        invariant
            0 <= t <= tracks.len(),
            tracks@ == album_tracks(ap),
            items@ == second + tracks@.take(t as int).map_values(|x: Arc<Track>| SearchItem::Track(x)),
        decreases tracks.len() - t,
    {
        items.push(SearchItem::Track(share(&tracks[t])));
        t = t + 1;
        assert(items@ =~= second + tracks@.take(t as int).map_values(|x: Arc<Track>| SearchItem::Track(x)));
    }
    assert(tracks@.take(tracks@.len() as int) =~= tracks@);
    items
}

} // verus!
