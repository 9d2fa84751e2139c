//! An earlier form of the artist/album list, whose selection is an
//! (artist, album) position rather than a row: it only moves forward, one
//! step at a time.
use vstd::prelude::*;
use crate::mimi::text::{push_str, str_chars};
use crate::order::{name_lt, names_order, lemma_names_order_strict_weak, lemma_sorted_names_increase, stable_sort_indices, is_permutation_of_range, stably_sorted};
use crate::text::owned;
use crate::ui::artist_album_list::{RowIndex, distinct_names, sorted_names_of};

verus! {

/// An artist and their albums.
#[derive(Debug)]
pub struct TreeArtist {
    pub artist: String,
    pub albums: Vec<String>,
}

/// State kept between renders of the [`ArtistAlbumList`].
#[derive(Debug)]
pub struct ArtistAlbumListState {
    /// Number of lines to scroll down when rendering.
    offset: usize,
    /// The selected item, if any.
    selected: Option<RowIndex>,
    /// The positions of the expanded artists, each once.
    expanded: Vec<usize>,
}

/// The list of artists, each of which can be expanded to show their
/// albums.
#[derive(Debug)]
pub struct ArtistAlbumList {
    artists: Vec<TreeArtist>,
    state: ArtistAlbumListState,
}

/// A row to draw: its text and what it stands for.
#[derive(Debug)]
pub struct Row {
    pub text: String,
    pub index: RowIndex,
}

/// The state of an [`ArtistAlbumList`].
pub struct ArtistTreeView {
    /// Each artist's name and album names, in display order.
    pub artists: Seq<(Seq<char>, Seq<Seq<char>>)>,
    pub offset: usize,
    pub selected: Option<RowIndex>,
    pub expanded: Set<usize>,
}

impl View for ArtistAlbumList {
    type V = ArtistTreeView;

    closed spec fn view(&self) -> ArtistTreeView {
        ArtistTreeView {
            artists: self.artists@.map_values(|a: TreeArtist| (a.artist@, string_views(a.albums@))),
            offset: self.state.offset,
            selected: self.state.selected,
            expanded: self.state.expanded@.to_set(),
        }
    }
}

/// The selection names a row that is shown: an existing artist, or an
/// existing album of an expanded artist.
pub open spec fn selection_valid(v: ArtistTreeView) -> bool {
    v.selected matches Some(sel) ==> {
        &&& sel.artist < v.artists.len()
        &&& sel.album matches Some(a) ==> v.expanded.contains(sel.artist) && a < v.artists[sel.artist as int].1.len()
    }
}

/// The selection after one step forward: nothing selected goes to the
/// first artist; a collapsed artist goes to the next artist; an expanded
/// artist goes to its first album (or to the next artist when it has
/// none); an album goes to the next album, or the next artist after the
/// last album. At the last row the selection stays where it is.
pub open spec fn next_selection(v: ArtistTreeView) -> Option<RowIndex> {
    match v.selected {
        None => Some(RowIndex { artist: 0, album: None }),
        Some(sel) => {
            let next_artist = if sel.artist + 1 < v.artists.len() {
                Some(RowIndex { artist: (sel.artist + 1) as usize, album: None })
            } else {
                Some(sel)
            };
            if !v.expanded.contains(sel.artist) {
                next_artist
            } else {
                match sel.album {
                    None => if v.artists[sel.artist as int].1.len() > 0 {
                        Some(RowIndex { artist: sel.artist, album: Some(0) })
                    } else {
                        next_artist
                    },
                    Some(album) => if album + 1 < v.artists[sel.artist as int].1.len() {
                        Some(RowIndex { artist: sel.artist, album: Some((album + 1) as usize) })
                    } else {
                        next_artist
                    },
                }
            }
        },
    }
}

impl ArtistAlbumList {
    /// The expanded positions are listed once each.
    pub closed spec fn wf(self) -> bool {
        &&& self.state.expanded@.no_duplicates()
        &&& self.artists@.len() <= usize::MAX
        &&& selection_valid(self@)
    }

    /// The selected row, if any.
    pub fn selected(&self) -> (s: Option<RowIndex>)
        ensures
            s == self@.selected,
    {
        self.state.selected
    }

    /// The list of the given artists and their albums, sorted by artist;
    /// nothing selected or expanded. Artist names must be distinct.
    pub fn new(artists: Vec<(String, Vec<String>)>) -> (list: ArtistAlbumList)
        requires
            distinct_names(artists@.map_values(|a: (String, Vec<String>)| Some(a.0@))),
        ensures
            list.wf(),
            list@.selected is None,
            list@.offset == 0,
            list@.expanded.is_empty(),
            list@.artists.len() == artists@.len(),
            sorted_names_of(artists@.map_values(|a: (String, Vec<String>)| Some(a.0@)), list@.artists.map_values(|a: (Seq<char>, Seq<Seq<char>>)| Some(a.0))),
            forall|i: int| 0 <= i < list@.artists.len() ==> given_artist(#[trigger] list@.artists[i], artists@),
    {
        let ghost names = artists@.map_values(|a: (String, Vec<String>)| Some(a.0@));
        proof {
            lemma_names_order_strict_weak(names);
        }
        let n = artists.len();
        let less = |i: usize, j: usize| -> (r: bool)
            requires
                i < artists.len(),
                j < artists.len(),
            ensures
                r == name_lt(artists@.map_values(|a: (String, Vec<String>)| Some(a.0@))[i as int], artists@.map_values(|a: (String, Vec<String>)| Some(a.0@))[j as int]),
            { crate::order::chars_less(&str_chars(artists[i].0.as_str()), &str_chars(artists[j].0.as_str())) };
        let p = stable_sort_indices(n, less, Ghost(names_order(names)));
        let mut sorted: Vec<TreeArtist> = Vec::new();
        let mut k: usize = 0;
        while k < p.len()
            invariant
                0 <= k <= p.len(),
                n == artists.len(),
                is_permutation_of_range(p@, n as int),
                sorted@.len() == k,
                forall|m: int| 0 <= m < k ==> (#[trigger] sorted@[m]).artist@ == artists@[p@[m] as int].0@
                    && string_views(sorted@[m].albums@) == string_views(artists@[p@[m] as int].1@),
            decreases p.len() - k,
        {
            let j = p[k];
            let albums = clone_strings(&artists[j].1);
            sorted.push(TreeArtist { artist: artists[j].0.clone(), albums });
            k = k + 1;
        }
        let list = ArtistAlbumList {
            artists: sorted,
            state: ArtistAlbumListState { offset: 0, selected: None, expanded: Vec::new() },
        };
        proof {
            let out = list@.artists.map_values(|a: (Seq<char>, Seq<Seq<char>>)| Some(a.0));
            assert forall|m: int| 0 <= m < out.len() implies #[trigger] out[m] == names[p@[m] as int] by {
                assert(list.artists@[m].artist@ == artists@[p@[m] as int].0@);
            }
            crate::ui::artist_album_list::lemma_permutation_sorts_pub(names, p@, out);
            assert(list@.expanded =~= Set::<usize>::empty());
            assert forall|i: int| 0 <= i < list@.artists.len() implies given_artist(#[trigger] list@.artists[i], artists@) by {
                let j = p@[i] as int;
                assert(list@.artists[i] == (list.artists@[i].artist@, string_views(list.artists@[i].albums@)));
                assert(artists@[j].0@ == list@.artists[i].0);
                assert(list@.artists[i].1 == string_views(artists@[j].1@));
            }
        }
        list
    }

    /// Moves the selection one step forward (see [`next_selection`]). Does
    /// nothing when there are no artists; the selection always stays on a
    /// shown row.
    pub fn next(&mut self)
        requires
            old(self).wf(),
        ensures
            final(self).wf(),
            selection_valid(final(self)@),
            old(self)@.artists.len() == 0 ==> final(self)@ == old(self)@,
            old(self)@.artists.len() > 0 ==> final(self)@ == (ArtistTreeView { selected: next_selection(old(self)@), ..old(self)@ }),
    {
        if self.artists.len() == 0 {
            return;
        }
        let selected = match self.state.selected {
            None => {
                self.state.selected = Some(RowIndex { artist: 0, album: None });
                return;
            },
            Some(s) => s,
        };
        let next_artist = if selected.artist + 1 < self.artists.len() {
            RowIndex { artist: selected.artist + 1, album: None }
        } else {
            selected
        };
        if !contains_index(&self.state.expanded, selected.artist) {
            self.state.selected = Some(next_artist);
            return;
        }
        let count = self.artists[selected.artist].albums.len();
        proof {
            assert(self@.artists[selected.artist as int].1.len() == count);
        }
        let selection = match selected.album {
            None => if count > 0 {
                RowIndex { artist: selected.artist, album: Some(0) }
            } else {
                next_artist
            },
            Some(album) => if album + 1 < count {
                RowIndex { artist: selected.artist, album: Some(album + 1) }
            } else {
                next_artist
            },
        };
        self.state.selected = Some(selection);
    }

    /// Toggles whether the selected artist is expanded; collapsing selects
    /// the artist itself.
    pub fn toggle(&mut self)
        requires
            old(self).wf(),
        ensures
            final(self).wf(),
            final(self)@ == toggled(old(self)@),
    {
        let artist = match self.state.selected {
            Some(sel) => sel.artist,
            None => {
                return;
            },
        };
        if contains_index(&self.state.expanded, artist) {
            remove_index(&mut self.state.expanded, artist);
            self.state.selected = Some(RowIndex { artist, album: None });
        } else {
            let ghost before = self.state.expanded@;
            self.state.expanded.push(artist);
            proof {
                let after = self.state.expanded@;
                assert(!before.contains(artist));
                assert forall|y: usize| after.contains(y) <==> (before.contains(y) || y == artist) by {
                    if after.contains(y) {
                        let k = choose|k: int| 0 <= k < after.len() && after[k] == y;
                        if k < before.len() {
                            assert(before[k] == y);
                        }
                    }
                    if before.contains(y) {
                        let k = choose|k: int| 0 <= k < before.len() && before[k] == y;
                        assert(after[k] == y);
                    }
                    if y == artist {
                        assert(after[before.len() as int] == y);
                    }
                }
                assert(after.to_set() =~= before.to_set().insert(artist));
                assert forall|a: int, b: int| 0 <= a < after.len() && 0 <= b < after.len() && a != b implies after[a] != after[b] by {
                    if a < before.len() && b < before.len() {
                        assert(before[a] == after[a] && before[b] == after[b]);
                    } else if a < before.len() {
                        assert(before[a] == after[a]);
                    } else if b < before.len() {
                        assert(before[b] == after[b]);
                    }
                }
            }
        }
    }

    /// The rows to draw, from the scroll offset on: each artist, followed by
    /// their albums (indented by four spaces) when expanded.
    pub fn rows(&self) -> (r: Vec<Row>)
        requires
            self.wf(),
        ensures
            r@.len() == tree_rows(self@).len() - self@.offset || (r@.len() == 0 && tree_rows(self@).len() <= self@.offset),
            forall|k: int| 0 <= k < r@.len() ==> (#[trigger] r@[k]).index == tree_rows(self@)[k + self@.offset].0
                && r@[k].text@ == tree_rows(self@)[k + self@.offset].1,
    {
        let mut all: Vec<Row> = Vec::new();
        let mut a: usize = 0;
        while a < self.artists.len()
            invariant
                0 <= a <= self.artists.len(),
                self.wf(),
                all@.len() == rows_upto(self@, a as int).len(),
                forall|k: int| 0 <= k < all@.len() ==> (#[trigger] all@[k]).index == rows_upto(self@, a as int)[k].0
                    && all@[k].text@ == rows_upto(self@, a as int)[k].1,
            decreases self.artists.len() - a,
        {
            let ghost before = rows_upto(self@, a as int);
            let ghost start = all@.len();
            all.push(Row { text: self.artists[a].artist.clone(), index: RowIndex { artist: a, album: None } });
            if contains_index(&self.state.expanded, a) {
                let mut k: usize = 0;
                while k < self.artists[a].albums.len()
                    invariant
                        0 <= k <= self@.artists[a as int].1.len(),
                        a < self.artists.len(),
                        self@.artists[a as int].1 == string_views(self.artists@[a as int].albums@),
                        all@.len() == start + 1 + k,
                        forall|m: int| 0 <= m < start ==> (#[trigger] all@[m]).index == before[m].0 && all@[m].text@ == before[m].1,
                        all@[start as int].index == (RowIndex { artist: a, album: None }),
                        all@[start as int].text@ == self@.artists[a as int].0,
                        forall|m: int| 0 <= m < k ==> (#[trigger] all@[start + 1 + m]).index == (RowIndex { artist: a, album: Some(m as usize) })
                            && all@[start + 1 + m].text@ == indent() + self@.artists[a as int].1[m],
                    decreases self@.artists[a as int].1.len() - k,
                {
                    let mut text = owned("    ");
                    proof {
                        reveal_strlit("    ");
                    }
                    push_str(&mut text, &self.artists[a].albums[k]);
                    assert(text@ == indent() + self@.artists[a as int].1[k as int]);
                    all.push(Row { text, index: RowIndex { artist: a, album: Some(k) } });
                    k = k + 1;
                }
                proof {
                    let own = artist_rows_of(self@, a as int);
                    assert(rows_upto(self@, a + 1) == before + own);
                    assert forall|m: int| 0 <= m < all@.len() implies (#[trigger] all@[m]).index == rows_upto(self@, a + 1)[m].0
                        && all@[m].text@ == rows_upto(self@, a + 1)[m].1 by {
                        if m > start {
                            assert(all@[start + 1 + (m - start - 1)].index == (RowIndex { artist: a, album: Some((m - start - 1) as usize) }));
                        }
                    }
                }
            } else {
                proof {
                    let own = artist_rows_of(self@, a as int);
                    assert(rows_upto(self@, a + 1) == before + own);
                }
            }
            a = a + 1;
        }
        let ghost full = rows_upto(self@, self.artists@.len() as int);
        assert(full == tree_rows(self@));
        let mut r: Vec<Row> = Vec::new();
        let mut k: usize = self.state.offset;
        while k < all.len()
            invariant
                self.state.offset <= k <= all.len() || (k == self.state.offset && all.len() <= k),
                r@.len() == k - self.state.offset,
                all@.len() == full.len(),
                forall|m: int| 0 <= m < all@.len() ==> (#[trigger] all@[m]).index == full[m].0 && all@[m].text@ == full[m].1,
                forall|m: int| 0 <= m < r@.len() ==> (#[trigger] r@[m]).index == full[m + self.state.offset].0 && r@[m].text@ == full[m + self.state.offset].1,
            decreases all.len() - k,
        {
            let text = all[k].text.clone();
            r.push(Row { text, index: all[k].index });
            k = k + 1;
        }
        r
    }
}

/// `entry` is one of the given artists with their albums.
pub open spec fn given_artist(entry: (Seq<char>, Seq<Seq<char>>), given: Seq<(String, Vec<String>)>) -> bool {
    exists|j: int| 0 <= j < given.len() && #[trigger] given[j].0@ == entry.0 && entry.1 == string_views(given[j].1@)
}

/// The characters of each string.
pub open spec fn string_views(v: Seq<String>) -> Seq<Seq<char>> {
    v.map_values(|s: String| s@)
}

/// The state after toggling: the selected artist is expanded, or collapsed
/// with the selection moved to the artist itself.
pub open spec fn toggled(v: ArtistTreeView) -> ArtistTreeView {
    match v.selected {
        None => v,
        Some(sel) => if v.expanded.contains(sel.artist) {
            ArtistTreeView {
                expanded: v.expanded.remove(sel.artist),
                selected: Some(RowIndex { artist: sel.artist, album: None }),
                ..v
            }
        } else {
            ArtistTreeView { expanded: v.expanded.insert(sel.artist), ..v }
        },
    }
}

/// Toggling a collapsed artist twice, with the artist itself selected,
/// leaves everything as it was.
pub proof fn lemma_toggle_twice_restores(v: ArtistTreeView)
    requires
        v.selected matches Some(sel) && sel.album is None && !v.expanded.contains(sel.artist),
    ensures
        toggled(toggled(v)) == v,
{
    let sel = v.selected->Some_0;
    assert(toggled(v).expanded.remove(sel.artist) =~= v.expanded);
}

/// Four spaces, the indentation of album rows.
pub open spec fn indent() -> Seq<char> {
    seq![' ', ' ', ' ', ' ']
}

/// The rows of artist `a`: the artist, and their albums if expanded.
pub open spec fn artist_rows_of(v: ArtistTreeView, a: int) -> Seq<(RowIndex, Seq<char>)> {
    seq![(RowIndex { artist: a as usize, album: None }, v.artists[a].0)] + if v.expanded.contains(a as usize) {
        Seq::new(v.artists[a].1.len(), |k: int| (RowIndex { artist: a as usize, album: Some(k as usize) }, indent() + v.artists[a].1[k]))
    } else {
        Seq::empty()
    }
}

/// The rows of the first `n` artists.
pub open spec fn rows_upto(v: ArtistTreeView, n: int) -> Seq<(RowIndex, Seq<char>)>
    decreases n,
{
    if n <= 0 {
        Seq::empty()
    } else {
        rows_upto(v, n - 1) + artist_rows_of(v, n - 1)
    }
}

/// All the rows, before scrolling.
pub open spec fn tree_rows(v: ArtistTreeView) -> Seq<(RowIndex, Seq<char>)> {
    rows_upto(v, v.artists.len() as int)
}

fn clone_strings(v: &Vec<String>) -> (r: Vec<String>)
    ensures
        string_views(r@) == string_views(v@),
{
    let mut r: Vec<String> = Vec::new();
    let mut i: usize = 0;
    while i < v.len()
        invariant
            0 <= i <= v.len(),
            r@ == v@.take(i as int),
        decreases v.len() - i,
    {
        r.push(v[i].clone());
        i = i + 1;
        assert(r@ =~= v@.take(i as int));
    }
    assert(v@.take(v.len() as int) =~= v@);
    r
}

fn contains_index(v: &Vec<usize>, x: usize) -> (b: bool)
    ensures
        b == v@.to_set().contains(x),
{
    let mut i: usize = 0;
    while i < v.len()
        invariant
            0 <= i <= v.len(),
            forall|k: int| 0 <= k < i ==> v@[k] != x,
        decreases v.len() - i,
    {
        if v[i] == x {
            assert(v@.contains(x));
            return true;
        }
        i = i + 1;
    }
    false
}

fn remove_index(v: &mut Vec<usize>, x: usize)
    requires
        old(v)@.no_duplicates(),
    ensures
        final(v)@.no_duplicates(),
        final(v)@.to_set() == old(v)@.to_set().remove(x),
{
    let mut i: usize = 0;
    while i < v.len()
        invariant
            0 <= i <= v.len(),
            v@ == old(v)@,
            old(v)@.no_duplicates(),
            forall|k: int| 0 <= k < i ==> v@[k] != x,
        decreases v.len() - i,
    {
        if v[i] == x {
            let ghost before = v@;
            v.remove(i);
            proof {
                assert(v@ == before.remove(i as int));
                assert forall|a: int, b: int| 0 <= a < v@.len() && 0 <= b < v@.len() && a != b implies v@[a] != v@[b] by {
                    let a2 = if a < i { a } else { a + 1 };
                    let b2 = if b < i { b } else { b + 1 };
                    assert(v@[a] == before[a2] && v@[b] == before[b2]);
                }
                assert forall|y: usize| v@.to_set().contains(y) <==> before.to_set().remove(x).contains(y) by {
                    if v@.contains(y) {
                        let k = choose|k: int| 0 <= k < v@.len() && v@[k] == y;
                        if k < i {
                            assert(before[k] == y);
                        } else {
                            assert(before[k + 1] == y);
                            assert(k + 1 != i);
                        }
                    }
                    if before.contains(y) && y != x {
                        let k = choose|k: int| 0 <= k < before.len() && before[k] == y;
                        if k < i {
                            assert(v@[k] == y);
                        } else {
                            assert(k != i);
                            assert(v@[k - 1] == y);
                        }
                    }
                }
                assert(v@.to_set() =~= before.to_set().remove(x));
            }
            return;
        }
        i = i + 1;
    }
    assert(!v@.contains(x));
    assert(v@.to_set() =~= v@.to_set().remove(x));
}

} // verus!
