//! A list of artists in which an artist can be expanded to list their
//! albums; either an artist or an album can be selected.
use vstd::prelude::*;
use crate::library::{AlbumName, ArtistName, Library, Artist, artist_wf};
use crate::order::{
    name_lt, names_order, lemma_names_order_strict_weak, lemma_sorted_names_increase,
    stable_sort_indices, is_permutation_of_range, stably_sorted,
};

verus! {

/// An artist and the names of their albums.
#[derive(Debug)]
pub struct ArtistItem {
    pub artist: ArtistName,
    pub albums: Vec<AlbumName>,
}

/// One visible row: an artist, or one of their albums.
#[derive(Copy, Clone, Debug, PartialEq, Eq, Structural)]
pub struct RowIndex {
    pub artist: usize,
    /// If None, the row is the artist themselves.
    pub album: Option<usize>,
}

/// An error from [`ArtistAlbumList::select`].
#[derive(Copy, Clone, Debug, PartialEq, Eq, Structural)]
pub enum SelectError {
    /// No artist has the name.
    ArtistNotFound,
    /// The artist has no album with the name.
    AlbumNotFound,
}

/// The rows of artist `a`: the artist, then their albums if expanded.
pub open spec fn artist_rows(a: int, album_count: nat, expanded: bool) -> Seq<RowIndex> {
    seq![RowIndex { artist: a as usize, album: None }] + if expanded {
        Seq::new(album_count, |k: int| RowIndex { artist: a as usize, album: Some(k as usize) })
    } else {
        Seq::empty()
    }
}

/// The visible rows of the first `n` artists.
pub open spec fn rows_upto(album_counts: Seq<nat>, expanded: Seq<bool>, n: int) -> Seq<RowIndex>
    decreases n,
{
    if n <= 0 {
        Seq::empty()
    } else {
        rows_upto(album_counts, expanded, n - 1) + artist_rows(n - 1, album_counts[n - 1], expanded[n - 1])
    }
}

/// The state of an [`ArtistAlbumList`].
pub struct ArtistAlbumListView {
    /// Each artist's name and the names of their albums, in display order.
    pub artists: Seq<(Option<Seq<char>>, Seq<Option<Seq<char>>>)>,
    /// Whether each artist is expanded.
    pub expanded: Seq<bool>,
    /// The position of the selected row, if any.
    pub selected: Option<usize>,
    /// The visible rows.
    pub rows: Seq<RowIndex>,
}

/// By default, an [`ArtistAlbumList`] just lists the artists; however, if an
/// artist is expanded, it also lists their albums. The list allows selecting
/// either an artist *or* an album.
#[derive(Debug)]
pub struct ArtistAlbumList {
    artists: Vec<ArtistItem>,
    /// The offset of the selected row, if any.
    selected: Option<usize>,
    /// Whether or not each artist is expanded.
    expanded: Vec<bool>,
    /// A flat list of all currently visible rows.
    rows: Vec<RowIndex>,
}

pub open spec fn album_names(albums: Seq<AlbumName>) -> Seq<Option<Seq<char>>> {
    albums.map_values(|a: AlbumName| a@)
}

pub open spec fn item_view(item: ArtistItem) -> (Option<Seq<char>>, Seq<Option<Seq<char>>>) {
    (item.artist@, album_names(item.albums@))
}

/// The number of albums of each artist.
pub open spec fn album_counts(artists: Seq<(Option<Seq<char>>, Seq<Option<Seq<char>>>)>) -> Seq<nat> {
    artists.map_values(|a: (Option<Seq<char>>, Seq<Option<Seq<char>>>)| a.1.len())
}

/// The rows shown for the artists and expansion flags.
pub open spec fn visible_rows(v: ArtistAlbumListView) -> Seq<RowIndex> {
    rows_upto(album_counts(v.artists), v.expanded, v.artists.len() as int)
}

impl View for ArtistAlbumList {
    type V = ArtistAlbumListView;

    closed spec fn view(&self) -> ArtistAlbumListView {
        ArtistAlbumListView {
            artists: self.artists@.map_values(|i: ArtistItem| item_view(i)),
            expanded: self.expanded@,
            selected: self.selected,
            rows: self.rows@,
        }
    }
}

/// The list is consistent: one flag per artist, the rows are the visible
/// rows, and the selection is a row.
pub open spec fn list_wf(v: ArtistAlbumListView) -> bool {
    &&& v.artists.len() <= usize::MAX
    &&& forall|k: int| 0 <= k < v.artists.len() ==> (#[trigger] v.artists[k]).1.len() <= usize::MAX
    &&& v.expanded.len() == v.artists.len()
    &&& v.rows == visible_rows(v)
    &&& v.selected matches Some(i) ==> i < v.rows.len()
}

/// `amount` added to `s`, kept within `0..=usize::MAX`.
pub open spec fn saturating_add_signed(s: usize, amount: isize) -> int {
    if s + amount < 0 {
        0
    } else if s + amount > usize::MAX {
        usize::MAX as int
    } else {
        s + amount
    }
}

/// The selection after moving by `amount` over `n` rows: clamped to the
/// rows; from no selection, moving down selects the first row.
pub open spec fn moved_selection(selected: Option<usize>, amount: isize, n: nat) -> Option<usize> {
    if n == 0 {
        selected
    } else {
        match selected {
            Some(s) => Some(
                (if saturating_add_signed(s, amount) < n - 1 {
                    saturating_add_signed(s, amount)
                } else {
                    n - 1
                }) as usize,
            ),
            None => if amount > 0 {
                Some(0usize)
            } else {
                None
            },
        }
    }
}

/// `s` moved by `amount`, clamped to `0..=max`.
pub fn clamp_add_signed(s: usize, amount: isize, max: usize) -> (r: usize)
    ensures
        r == (if saturating_add_signed(s, amount) < max {
            saturating_add_signed(s, amount)
        } else {
            max as int
        }),
{
    let moved: usize = if amount >= 0 {
        let up = amount as usize;
        if s > usize::MAX - up {
            usize::MAX
        } else {
            s + up
        }
    } else {
        let down: usize = if amount == isize::MIN {
            (isize::MAX as usize) + 1
        } else {
            (-amount) as usize
        };
        if s < down {
            0
        } else {
            s - down
        }
    };
    if moved < max {
        moved
    } else {
        max
    }
}

pub proof fn lemma_rows_upto_len(album_counts: Seq<nat>, expanded: Seq<bool>, n: int)
    ensures
        rows_upto(album_counts, expanded, n).len() >= n,
    decreases n,
{
    if n > 0 {
        lemma_rows_upto_len(album_counts, expanded, n - 1);
    }
}

/// The rows of the first `n` artists all belong to those artists, and the
/// artist row of each comes first among its rows.
pub proof fn lemma_rows_upto_artists(album_counts: Seq<nat>, expanded: Seq<bool>, n: int)
    ensures
        forall|k: int| 0 <= k < rows_upto(album_counts, expanded, n).len() ==> (#[trigger] rows_upto(album_counts, expanded, n)[k]).artist < n,
    decreases n,
{
    if n > 0 {
        lemma_rows_upto_artists(album_counts, expanded, n - 1);
        let prev = rows_upto(album_counts, expanded, n - 1);
        let now = rows_upto(album_counts, expanded, n);
        assert forall|k: int| 0 <= k < now.len() implies (#[trigger] now[k]).artist < n by {
            if k < prev.len() {
                assert(now[k] == prev[k]);
            }
        }
    }
}

impl ArtistAlbumList {
    /// The list is consistent.
    pub open spec fn wf(self) -> bool {
        list_wf(self@)
    }

    /// The rows for the current artists and expansion flags.
    fn recompute_rows(&mut self)
        requires
            old(self).expanded@.len() == old(self).artists@.len(),
        ensures
            final(self).rows@ == visible_rows(final(self)@),
            final(self).artists == old(self).artists,
            final(self).expanded == old(self).expanded,
            final(self).selected == old(self).selected,
    {
        let ghost v = self@;
        let ghost counts = album_counts(v.artists);
        let mut rows: Vec<RowIndex> = Vec::new();
        let mut a: usize = 0;
        while a < self.artists.len()
            invariant
                0 <= a <= self.artists.len(),
                self.expanded@.len() == self.artists@.len(),
                v == self@,
                counts == album_counts(v.artists),
                rows@ == rows_upto(counts, v.expanded, a as int),
            decreases self.artists.len() - a,
        {
            let ghost before = rows@;
            rows.push(RowIndex { artist: a, album: None });
            let n = self.artists[a].albums.len();
            proof {
                assert(counts[a as int] == n);
            }
            if self.expanded[a] {
                let mut k: usize = 0;
                while k < n
                    invariant
                        0 <= k <= n,
                        rows@ == before + seq![RowIndex { artist: a, album: None }] + Seq::new(k as nat, |m: int| RowIndex { artist: a, album: Some(m as usize) }),
                    decreases n - k,
                {
                    rows.push(RowIndex { artist: a, album: Some(k) });
                    k = k + 1;
                    assert(rows@ =~= before + seq![RowIndex { artist: a, album: None }] + Seq::new(k as nat, |m: int| RowIndex { artist: a, album: Some(m as usize) }));
                }
                assert(rows@ =~= rows_upto(counts, v.expanded, a + 1));
            } else {
                assert(rows@ =~= rows_upto(counts, v.expanded, a + 1));
            }
            a = a + 1;
        }
        self.rows = rows;
    }
}


/// `out` lists the names of `names`, each once, in increasing order (names
/// are distinct).
pub open spec fn sorted_names_of(names: Seq<Option<Seq<char>>>, out: Seq<Option<Seq<char>>>) -> bool {
    &&& out.len() == names.len()
    &&& forall|i: int| 0 <= i < out.len() ==> names.contains(#[trigger] out[i])
    &&& forall|j: int| 0 <= j < names.len() ==> out.contains(#[trigger] names[j])
    &&& forall|a: int, b: int| 0 <= a < b < out.len() ==> name_lt(#[trigger] out[a], #[trigger] out[b])
}

/// The names are distinct.
pub open spec fn distinct_names(names: Seq<Option<Seq<char>>>) -> bool {
    forall|i: int, j: int| 0 <= i < j < names.len() ==> #[trigger] names[i] != #[trigger] names[j]
}

/// The album names of an artist of the library.
pub open spec fn library_album_names(artist: Artist) -> Seq<Option<Seq<char>>> {
    artist.albums@.map_values(|al: crate::library::Album| al.name@)
}

/// The values of the names.
pub open spec fn artist_names(keys: Seq<ArtistName>) -> Seq<Option<Seq<char>>> {
    keys.map_values(|a: ArtistName| a@)
}

/// The artist names of the library.
pub open spec fn library_artist_names(library: Library) -> Seq<Option<Seq<char>>> {
    library.artists@.map_values(|a: Artist| a.name@)
}

/// Sorts names given by their positions: the positions in stable name order.
fn sort_by_name(keys: &Vec<AlbumName>) -> (p: Vec<usize>)
    ensures
        is_permutation_of_range(p@, keys.len() as int),
        stably_sorted(names_order(album_names(keys@)), p@),
{
    let ghost names = album_names(keys@);
    proof {
        lemma_names_order_strict_weak(names);
    }
    let less = |i: usize, j: usize| -> (r: bool)
        requires
            i < keys.len(),
            j < keys.len(),
        ensures
            r == name_lt(album_names(keys@)[i as int], album_names(keys@)[j as int]),
        { keys[i].less(&keys[j]) };
    stable_sort_indices(keys.len(), less, Ghost(names_order(names)))
}

fn sort_by_artist_name(keys: &Vec<ArtistName>) -> (p: Vec<usize>)
    ensures
        is_permutation_of_range(p@, keys.len() as int),
        stably_sorted(names_order(artist_names(keys@)), p@),
{
    let ghost names = artist_names(keys@);
    proof {
        lemma_names_order_strict_weak(names);
    }
    let less = |i: usize, j: usize| -> (r: bool)
        requires
            i < keys.len(),
            j < keys.len(),
        ensures
            r == name_lt(artist_names(keys@)[i as int], artist_names(keys@)[j as int]),
        { keys[i].less(&keys[j]) };
    stable_sort_indices(keys.len(), less, Ghost(names_order(names)))
}

/// A permutation sorting distinct names gives the names in increasing order.
proof fn lemma_permutation_sorts(names: Seq<Option<Seq<char>>>, p: Seq<usize>, out: Seq<Option<Seq<char>>>)
    requires
        is_permutation_of_range(p, names.len() as int),
        stably_sorted(names_order(names), p),
        distinct_names(names),
        out.len() == p.len(),
        forall|k: int| 0 <= k < out.len() ==> #[trigger] out[k] == names[p[k] as int],
    ensures
        sorted_names_of(names, out),
{
    lemma_sorted_names_increase(names, p);
    assert forall|i: int| 0 <= i < out.len() implies names.contains(#[trigger] out[i]) by {
        assert(names[p[i] as int] == out[i]);
    }
    assert forall|j: int| 0 <= j < names.len() implies out.contains(#[trigger] names[j]) by {
        // every position appears in the permutation
        let used = Set::new(|x: int| exists|k: int| 0 <= k < p.len() && p[k] == x);
        if !(exists|k: int| 0 <= k < p.len() && p[k] == j) {
            lemma_permutation_covers(p, names.len() as int, j);
        }
        let k = choose|k: int| 0 <= k < p.len() && p[k] == j;
        assert(out[k] == names[j]);
    }
    assert forall|a: int, b: int| 0 <= a < b < out.len() implies name_lt(#[trigger] out[a], #[trigger] out[b]) by {
        assert(name_lt(names[p[a] as int], names[p[b] as int]));
    }
}

/// A permutation sorting distinct names gives the names in increasing order.
pub proof fn lemma_permutation_sorts_pub(names: Seq<Option<Seq<char>>>, p: Seq<usize>, out: Seq<Option<Seq<char>>>)
    requires
        is_permutation_of_range(p, names.len() as int),
        stably_sorted(names_order(names), p),
        distinct_names(names),
        out.len() == p.len(),
        forall|k: int| 0 <= k < out.len() ==> #[trigger] out[k] == names[p[k] as int],
    ensures
        sorted_names_of(names, out),
{
    lemma_permutation_sorts(names, p, out);
}

/// A sequence of `n` distinct positions below `n` holds every position.
proof fn lemma_permutation_covers(p: Seq<usize>, n: int, j: int)
    requires
        is_permutation_of_range(p, n),
        0 <= j < n,
    ensures
        exists|k: int| 0 <= k < p.len() && p[k] == j,
{
    let s = p.map_values(|x: usize| x as int);
    assert forall|a: int, b: int| 0 <= a < b < s.len() implies s[a] != s[b] by {
        assert(p[a] != p[b]);
    }
    assert(s.no_duplicates());
    s.unique_seq_to_set();
    let full = Set::new(|x: int| 0 <= x < n);
    assert(s.to_set().subset_of(full)) by {
        assert forall|x: int| s.to_set().contains(x) implies full.contains(x) by {
            let k = choose|k: int| 0 <= k < s.len() && s[k] == x;
            assert(p[k] < n);
        }
    }
    vstd::set_lib::lemma_int_range(0, n);
    assert(full =~= vstd::set_lib::set_int_range(0, n));
    if !s.to_set().contains(j) {
        vstd::set_lib::lemma_len_subset(s.to_set().insert(j), full);
        assert(s.to_set().insert(j).len() == s.to_set().len() + 1);
    }
    let k = choose|k: int| 0 <= k < s.len() && s[k] == j;
    assert(p[k] == j);
}

/// The album names of an artist, sorted.
fn sorted_album_names(artist: &Artist) -> (r: Vec<AlbumName>)
    requires
        distinct_names(library_album_names(*artist)),
    ensures
        sorted_names_of(library_album_names(*artist), album_names(r@)),
{
    let mut names: Vec<AlbumName> = Vec::new();
    let mut i: usize = 0;
    while i < artist.albums.len()
        invariant
            0 <= i <= artist.albums.len(),
            names@.len() == i,
            album_names(names@) == library_album_names(*artist).take(i as int),
        decreases artist.albums.len() - i,
    {
        let ghost before = names@;
        let n = artist.albums[i].name.clone_name();
        names.push(n);
        proof {
            assert(names@ == before.push(n));
            assert(album_names(names@)[i as int] == n@);
            assert(library_album_names(*artist)[i as int] == artist.albums@[i as int].name@);
            assert forall|m: int| 0 <= m < i implies #[trigger] album_names(names@)[m] == album_names(before)[m] by {
                assert(names@[m] == before[m]);
            }
        }
        i = i + 1;
        assert(album_names(names@) =~= library_album_names(*artist).take(i as int));
    }
    assert(library_album_names(*artist).take(artist.albums.len() as int) =~= library_album_names(*artist));
    let p = sort_by_name(&names);
    let mut r: Vec<AlbumName> = Vec::new();
    let mut k: usize = 0;
    while k < p.len()
        invariant
            0 <= k <= p.len(),
            is_permutation_of_range(p@, names.len() as int),
            r@.len() == k,
            forall|m: int| 0 <= m < k ==> (#[trigger] r@[m])@ == names@[p@[m] as int]@,
        decreases p.len() - k,
    {
        r.push(names[p[k]].clone_name());
        k = k + 1;
    }
    proof {
        lemma_permutation_sorts(album_names(names@), p@, album_names(r@));
    }
    r
}

impl ArtistAlbumList {
    /// The list of the library's artists, sorted by name, each with their
    /// album names sorted; nothing expanded and nothing selected.
    pub fn new(library: &Library) -> (list: ArtistAlbumList)
        requires
            library.wf(),
        ensures
            list.wf(),
            list@.selected is None,
            forall|i: int| 0 <= i < list@.expanded.len() ==> !#[trigger] list@.expanded[i],
            sorted_names_of(library_artist_names(*library), names_of(list@.artists)),
            forall|i: int| 0 <= i < list@.artists.len() ==> exists|j: int| 0 <= j < library.artists@.len() && #[trigger] library.artists@[j].name@ == (#[trigger] list@.artists[i]).0
                && sorted_names_of(library_album_names(library.artists@[j]), list@.artists[i].1),
    {
        let mut keys: Vec<ArtistName> = Vec::new();
        let mut i: usize = 0;
        while i < library.artists.len()
            invariant
                0 <= i <= library.artists.len(),
                keys@.len() == i,
                artist_names(keys@) == library_artist_names(*library).take(i as int),
            decreases library.artists.len() - i,
        {
            let ghost before = keys@;
            let n = library.artists[i].name.clone_name();
            keys.push(n);
            proof {
                assert(keys@ == before.push(n));
                assert(artist_names(keys@)[i as int] == n@);
                assert(library_artist_names(*library)[i as int] == library.artists@[i as int].name@);
                assert forall|m: int| 0 <= m < i implies #[trigger] artist_names(keys@)[m] == artist_names(before)[m] by {
                    assert(keys@[m] == before[m]);
                }
            }
            i = i + 1;
            assert(artist_names(keys@) =~= library_artist_names(*library).take(i as int));
        }
        assert(library_artist_names(*library).take(library.artists.len() as int) =~= library_artist_names(*library));
        let p = sort_by_artist_name(&keys);
        let mut artists: Vec<ArtistItem> = Vec::new();
        let mut expanded: Vec<bool> = Vec::new();
        let mut k: usize = 0;
        while k < p.len()
            invariant
                0 <= k <= p.len(),
                library.wf(),
                keys@.len() == library.artists@.len(),
                artist_names(keys@) == library_artist_names(*library),
                is_permutation_of_range(p@, keys.len() as int),
                artists@.len() == k,
                expanded@.len() == k,
                forall|m: int| 0 <= m < k ==> !#[trigger] expanded@[m],
                forall|m: int| 0 <= m < k ==> (#[trigger] artists@[m]).albums@.len() <= usize::MAX,
                forall|m: int| 0 <= m < k ==> (#[trigger] artists@[m]).artist@ == library.artists@[p@[m] as int].name@
                    && sorted_names_of(library_album_names(library.artists@[p@[m] as int]), album_names(artists@[m].albums@)),
            decreases p.len() - k,
        {
            let j = p[k];
            let artist = &library.artists[j];
            proof {
                assert(artist_wf(*artist));
                assert(distinct_names(library_album_names(*artist))) by {
                    assert forall|x: int, y: int| 0 <= x < y < library_album_names(*artist).len() implies #[trigger] library_album_names(*artist)[x] != #[trigger] library_album_names(*artist)[y] by {
                        assert(artist.albums@[x].name@ != artist.albums@[y].name@);
                    }
                }
            }
            let albums = sorted_album_names(artist);
            let _ = albums.len();
            artists.push(ArtistItem { artist: artist.name.clone_name(), albums });
            expanded.push(false);
            k = k + 1;
        }
        let _ = artists.len();
        let mut list = ArtistAlbumList { artists, selected: None, expanded, rows: Vec::new() };
        list.recompute_rows();
        proof {
            let names = library_artist_names(*library);
            let out = names_of(list@.artists);
            assert(distinct_names(names)) by {
                assert forall|x: int, y: int| 0 <= x < y < names.len() implies #[trigger] names[x] != #[trigger] names[y] by {
                    assert(library.artists@[x].name@ != library.artists@[y].name@);
                }
            }
            assert forall|m: int| 0 <= m < out.len() implies #[trigger] out[m] == names[p@[m] as int] by {
                assert(list.artists@[m].artist@ == library.artists@[p@[m] as int].name@);
            }
            lemma_permutation_sorts(names, p@, out);
            assert forall|i: int| 0 <= i < list@.artists.len() implies exists|j: int| 0 <= j < library.artists@.len() && #[trigger] library.artists@[j].name@ == (#[trigger] list@.artists[i]).0
                && sorted_names_of(library_album_names(library.artists@[j]), list@.artists[i].1) by {
                let j = p@[i] as int;
                assert(library.artists@[j].name@ == list@.artists[i].0);
            }
        }
        list
    }

    /// The visible rows.
    pub fn rows(&self) -> (r: &Vec<RowIndex>)
        ensures
            r@ == self@.rows,
    {
        &self.rows
    }

    /// The position of the selected row, if any.
    pub fn selected(&self) -> (s: Option<usize>)
        ensures
            s == self@.selected,
    {
        self.selected
    }

    /// The text drawn for a row: the artist's name, or the album's name
    /// indented by four spaces.
    pub fn text(&self, row: RowIndex) -> (t: String)
        requires
            self.wf(),
            row.artist < self@.artists.len(),
            row.album matches Some(k) ==> k < self@.artists[row.artist as int].1.len(),
        ensures
            t@ == match row.album {
                Some(k) => "    "@ + crate::library::display_name(self@.artists[row.artist as int].1[k as int]),
                None => crate::library::display_name(self@.artists[row.artist as int].0),
            },
    {
        let artist = &self.artists[row.artist];
        match row.album {
            Some(k) => {
                let mut t = crate::text::owned("    ");
                let name = artist.albums[k].display();
                crate::mimi::text::push_str(&mut t, &name);
                t
            },
            None => artist.artist.display(),
        }
    }

    /// The artist of the selected row, if any.
    pub fn artist(&self) -> (a: Option<ArtistName>)
        requires
            self.wf(),
        ensures
            match self@.selected {
                Some(i) => a matches Some(name) && name@ == self@.artists[self@.rows[i as int].artist as int].0,
                None => a is None,
            },
    {
        let idx = match self.selected {
            Some(i) => i,
            None => {
                return None;
            },
        };
        proof {
            lemma_rows_upto_artists(album_counts(self@.artists), self@.expanded, self@.artists.len() as int);
            assert(self@.rows[idx as int].artist < self@.artists.len());
        }
        let row = self.rows[idx];
        Some(self.artists[row.artist].artist.clone_name())
    }
}


/// Row `i` is the first row satisfying `pred`.
pub open spec fn first_row(rows: Seq<RowIndex>, pred: spec_fn(RowIndex) -> bool, i: int) -> bool {
    &&& 0 <= i < rows.len()
    &&& pred(rows[i])
    &&& forall|k: int| 0 <= k < i ==> !pred(#[trigger] rows[k])
}

/// The rows of the first `n` artists include the row of artist `a`, and
/// the rows of its albums when it is expanded.
pub proof fn lemma_row_present(counts: Seq<nat>, expanded: Seq<bool>, n: int, a: int, album: Option<usize>)
    requires
        0 <= a < n,
        album matches Some(k) ==> expanded[a] && k < counts[a],
    ensures
        rows_upto(counts, expanded, n).contains(RowIndex { artist: a as usize, album }),
    decreases n,
{
    let target = RowIndex { artist: a as usize, album };
    if a < n - 1 {
        lemma_row_present(counts, expanded, n - 1, a, album);
        let prev = rows_upto(counts, expanded, n - 1);
        let k = choose|k: int| 0 <= k < prev.len() && prev[k] == target;
        assert(rows_upto(counts, expanded, n)[k] == target);
    } else {
        let prev = rows_upto(counts, expanded, n - 1);
        let own = artist_rows(a, counts[a], expanded[a]);
        match album {
            None => {
                assert(rows_upto(counts, expanded, n)[prev.len() as int] == own[0]);
            },
            Some(k) => {
                assert(own[1 + k] == target);
                assert(rows_upto(counts, expanded, n)[prev.len() + 1 + k] == target);
            },
        }
    }
}

/// The position of the first row satisfying `pred`, which some row does.
fn find_row<F: Fn(RowIndex) -> bool>(rows: &Vec<RowIndex>, pred: F, Ghost(p): Ghost<spec_fn(RowIndex) -> bool>) -> (i: usize)
    requires
        forall|r: RowIndex| #[trigger] pred.requires((r,)),
        forall|r: RowIndex, b: bool| #[trigger] pred.ensures((r,), b) ==> b == p(r),
        exists|k: int| 0 <= k < rows@.len() && #[trigger] p(rows@[k]),
    ensures
        first_row(rows@, p, i as int),
{
    let mut i: usize = 0;
    while i < rows.len()
        invariant
            0 <= i <= rows.len(),
            forall|r: RowIndex| #[trigger] pred.requires((r,)),
            forall|r: RowIndex, b: bool| #[trigger] pred.ensures((r,), b) ==> b == p(r),
            forall|k: int| 0 <= k < i ==> !p(#[trigger] rows@[k]),
            exists|k: int| 0 <= k < rows@.len() && #[trigger] p(rows@[k]),
        decreases rows.len() - i,
    {
        if pred(rows[i]) {
            return i;
        }
        i = i + 1;
    }
    proof {
        let k = choose|k: int| 0 <= k < rows@.len() && #[trigger] p(rows@[k]);
        assert(!p(rows@[k]));
    }
    0
}

/// The artist names of the list.
pub open spec fn names_of(artists: Seq<(Option<Seq<char>>, Seq<Option<Seq<char>>>)>) -> Seq<Option<Seq<char>>> {
    artists.map_values(|x: (Option<Seq<char>>, Seq<Option<Seq<char>>>)| x.0)
}

/// `i` is the first position holding `name`.
pub open spec fn first_named(names: Seq<Option<Seq<char>>>, name: Option<Seq<char>>, i: int) -> bool {
    &&& 0 <= i < names.len()
    &&& names[i] == name
    &&& forall|k: int| 0 <= k < i ==> names[k] != name
}

/// A successful selection of `target`: its artist is expanded, and the
/// selection is the row `target`.
pub open spec fn selected_row(old: ArtistAlbumListView, new: ArtistAlbumListView, r: Result<(), SelectError>, target: RowIndex) -> bool {
    &&& r is Ok
    &&& new.expanded == old.expanded.update(target.artist as int, true)
    &&& new.selected matches Some(i) && first_row(new.rows, is_row(target), i as int)
}

/// Toggling took the list from `old` to `new`: the artist of the selected
/// row is expanded, or collapsed with the selection moved to the artist's
/// own row; with nothing selected nothing changes.
pub open spec fn toggle_outcome(old: ArtistAlbumListView, new: ArtistAlbumListView) -> bool {
    &&& new.artists == old.artists
    &&& match old.selected {
        None => new == old,
        Some(s) => {
            let a = old.rows[s as int].artist;
            if old.expanded[a as int] {
                &&& new.expanded == old.expanded.update(a as int, false)
                &&& new.selected matches Some(i) && first_row(new.rows, is_artist_row(a), i as int)
            } else {
                &&& new.expanded == old.expanded.update(a as int, true)
                &&& new.selected == old.selected
            }
        },
    }
}

/// The name of an optional album.
pub open spec fn album_view(album: Option<&AlbumName>) -> Option<Option<Seq<char>>> {
    match album {
        Some(al) => Some(al@),
        None => None,
    }
}

/// Selecting `artist` (and `album`, if given) took the list from `old` to
/// `new` with result `r`: an unknown artist or album is an error that
/// changes nothing; otherwise the artist is expanded and its row, or the
/// album's row, is selected.
pub open spec fn select_outcome(
    old: ArtistAlbumListView,
    new: ArtistAlbumListView,
    artist: Option<Seq<char>>,
    album: Option<Option<Seq<char>>>,
    r: Result<(), SelectError>,
) -> bool {
    &&& (forall|a: int| !#[trigger] first_named(names_of(old.artists), artist, a))
        ==> r == Err::<(), SelectError>(SelectError::ArtistNotFound) && new == old
    &&& forall|a: int| #[trigger] first_named(names_of(old.artists), artist, a) ==> match album {
        None => selected_row(old, new, r, RowIndex { artist: a as usize, album: None }),
        Some(al) => {
            &&& (forall|k: int| !#[trigger] first_named(old.artists[a].1, al, k))
                ==> r == Err::<(), SelectError>(SelectError::AlbumNotFound) && new == old
            &&& forall|k: int| #[trigger] first_named(old.artists[a].1, al, k)
                ==> selected_row(old, new, r, RowIndex { artist: a as usize, album: Some(k as usize) })
        },
    }
}

/// Row of artist `a` itself.
pub open spec fn is_artist_row(a: usize) -> spec_fn(RowIndex) -> bool {
    |r: RowIndex| r.artist == a
}

/// Row `target`.
pub open spec fn is_row(target: RowIndex) -> spec_fn(RowIndex) -> bool {
    |r: RowIndex| r == target
}

impl ArtistAlbumList {
    /// The album of the selected row, if it is an album row.
    pub fn album(&self) -> (a: Option<AlbumName>)
        requires
            self.wf(),
        ensures
            match self@.selected {
                Some(i) => match self@.rows[i as int].album {
                    Some(k) => a matches Some(name) && name@ == self@.artists[self@.rows[i as int].artist as int].1[k as int],
                    None => a is None,
                },
                None => a is None,
            },
    {
        let idx = match self.selected {
            Some(i) => i,
            None => {
                return None;
            },
        };
        let row = self.rows[idx];
        let album = match row.album {
            Some(k) => k,
            None => {
                return None;
            },
        };
        proof {
            assert forall|k: int| 0 <= k < album_counts(self@.artists).len() implies #[trigger] album_counts(self@.artists)[k] <= usize::MAX by {
                assert(album_counts(self@.artists)[k] == self@.artists[k].1.len());
            }
            lemma_rows_album_in_range(album_counts(self@.artists), self@.expanded, self@.artists.len() as int, idx as int);
        }
        Some(self.artists[row.artist].albums[album].clone_name())
    }

    /// Moves the selection by `amount` rows, staying within the rows. With
    /// nothing selected, moving down selects the first row and moving up
    /// does nothing. Does nothing when there are no artists.
    pub fn move_selection(&mut self, amount: isize)
        requires
            old(self).wf(),
        ensures
            final(self).wf(),
            final(self)@ == (ArtistAlbumListView {
                selected: moved_selection(old(self)@.selected, amount, old(self)@.rows.len()),
                ..old(self)@
            }),
    {
        if self.artists.len() == 0 {
            proof {
                assert(self@.rows.len() == 0);
            }
            return;
        }
        proof {
            lemma_rows_upto_len(album_counts(self@.artists), self@.expanded, self@.artists.len() as int);
        }
        self.selected = match self.selected {
            Some(selected) => Some(clamp_add_signed(selected, amount, self.rows.len() - 1)),
            None => if amount > 0 {
                Some(0)
            } else {
                None
            },
        };
    }

    /// Toggles whether the artist of the selected row is expanded. When
    /// collapsing, the selection moves to the artist's own row.
    pub fn toggle(&mut self)
        requires
            old(self).wf(),
        ensures
            final(self).wf(),
            toggle_outcome(old(self)@, final(self)@),
    {
        let selected = match self.selected {
            Some(s) => s,
            None => {
                return;
            },
        };
        proof {
            lemma_rows_upto_artists(album_counts(self@.artists), self@.expanded, self@.artists.len() as int);
        }
        let artist = self.rows[selected].artist;
        if self.expanded[artist] {
            self.expanded.set(artist, false);
            self.recompute_rows();
            proof {
                lemma_row_present(album_counts(self@.artists), self@.expanded, self@.artists.len() as int, artist as int, None);
                let k = choose|k: int| 0 <= k < self.rows@.len() && self.rows@[k] == RowIndex { artist, album: None };
                assert(is_artist_row(artist)(self.rows@[k]));
            }
            let pred = |r: RowIndex| -> (b: bool)
                ensures
                    b == is_artist_row(artist)(r),
                { r.artist == artist };
            let i = find_row(&self.rows, pred, Ghost(is_artist_row(artist)));
            self.selected = Some(i);
        } else {
            self.expanded.set(artist, true);
            self.recompute_rows();
            proof {
                assert forall|k: int| 0 <= k < album_counts(self@.artists).len() implies #[trigger] album_counts(self@.artists)[k] <= usize::MAX by {
                    assert(album_counts(self@.artists)[k] == self@.artists[k].1.len());
                }
                lemma_rows_selection_kept(album_counts(self@.artists), old(self)@.expanded, artist as int, selected as int);
            }
        }
    }

    /// Moves the selection to the given artist (and optionally album),
    /// expanding the artist. Errors, changing nothing, if that artist or
    /// album does not exist.
    pub fn select(&mut self, artist: &ArtistName, album: Option<&AlbumName>) -> (r: Result<(), SelectError>)
        requires
            old(self).wf(),
        ensures
            final(self).wf(),
            final(self)@.artists == old(self)@.artists,
            select_outcome(old(self)@, final(self)@, artist@, album_view(album), r),
    {
        let mut a: usize = 0;
        while a < self.artists.len() && !self.artists[a].artist.same(artist)
            invariant
                0 <= a <= self.artists.len(),
                forall|b: int| 0 <= b < a ==> self@.artists[b].0 != artist@,
            decreases self.artists.len() - a,
        {
            a = a + 1;
        }
        let ghost names = names_of(self@.artists);
        if a == self.artists.len() {
            assert forall|a2: int| !#[trigger] first_named(names, artist@, a2) by {
                if 0 <= a2 < names.len() {
                    assert(names[a2] == self@.artists[a2].0);
                }
            }
            return Err(SelectError::ArtistNotFound);
        }
        assert(self@.artists[a as int].0 == artist@);
        assert(first_named(names, artist@, a as int));
        assert forall|a2: int| #[trigger] first_named(names, artist@, a2) implies a2 == a by {
            if a2 < a {
                assert(names[a2] == self@.artists[a2].0);
            } else if a2 > a {
                assert(names[a as int] == artist@);
            }
        }
        let album_index: Option<usize> = match album {
            None => None,
            Some(al) => {
                let mut k: usize = 0;
                while k < self.artists[a].albums.len() && !self.artists[a].albums[k].same(al)
                    invariant
                        0 <= k <= self@.artists[a as int].1.len(),
                        a < self.artists.len(),
                        self@.artists[a as int].1 == album_names(self.artists@[a as int].albums@),
                        forall|m: int| 0 <= m < k ==> self@.artists[a as int].1[m] != al@,
                    decreases self@.artists[a as int].1.len() - k,
                {
                    k = k + 1;
                }
                let ghost al_names = self@.artists[a as int].1;
                if k == self.artists[a].albums.len() {
                    assert forall|k2: int| !#[trigger] first_named(al_names, al@, k2) by {}
                    return Err(SelectError::AlbumNotFound);
                }
                assert(first_named(al_names, al@, k as int));
                assert forall|k2: int| #[trigger] first_named(al_names, al@, k2) implies k2 == k by {
                    if k2 > k {
                        assert(al_names[k as int] == al@);
                    }
                }
                Some(k)
            },
        };
        self.expanded.set(a, true);
        self.recompute_rows();
        let target = RowIndex { artist: a, album: album_index };
        proof {
            lemma_row_present(album_counts(self@.artists), self@.expanded, self@.artists.len() as int, a as int, album_index);
            let k = choose|k: int| 0 <= k < self.rows@.len() && self.rows@[k] == target;
            assert(is_row(target)(self.rows@[k]));
        }
        let pred = |r: RowIndex| -> (b: bool)
            ensures
                b == is_row(target)(r),
            { r == target };
        let i = find_row(&self.rows, pred, Ghost(is_row(target)));
        self.selected = Some(i);
        Ok(())
    }
}

/// Album rows only appear for expanded artists, with album positions in
/// range.
pub proof fn lemma_rows_album_in_range(counts: Seq<nat>, expanded: Seq<bool>, n: int, i: int)
    requires
        n <= usize::MAX,
        forall|k: int| 0 <= k < counts.len() ==> #[trigger] counts[k] <= usize::MAX,
        0 <= i < rows_upto(counts, expanded, n).len(),
        n <= counts.len(),
        n <= expanded.len(),
    ensures
        rows_upto(counts, expanded, n)[i].artist < n,
        rows_upto(counts, expanded, n)[i].album matches Some(k) ==> k < counts[rows_upto(counts, expanded, n)[i].artist as int],
    decreases n,
{
    if n > 0 {
        let prev = rows_upto(counts, expanded, n - 1);
        if i < prev.len() {
            lemma_rows_album_in_range(counts, expanded, n - 1, i);
        } else {
            let own = artist_rows(n - 1, counts[n - 1], expanded[n - 1]);
            let j = i - prev.len();
            assert(rows_upto(counts, expanded, n)[i] == own[j]);
            if j > 0 {
                assert(own[j] == RowIndex { artist: (n - 1) as usize, album: Some((j - 1) as usize) });
            }
        }
    }
}

/// The rows of the first `m` artists come first among the rows of the
/// first `n`.
pub proof fn lemma_rows_prefix(counts: Seq<nat>, expanded: Seq<bool>, m: int, n: int)
    requires
        0 <= m <= n,
    ensures
        rows_upto(counts, expanded, m).len() <= rows_upto(counts, expanded, n).len(),
        forall|k: int| 0 <= k < rows_upto(counts, expanded, m).len() ==> #[trigger] rows_upto(counts, expanded, n)[k] == rows_upto(counts, expanded, m)[k],
    decreases n,
{
    if n > m {
        lemma_rows_prefix(counts, expanded, m, n - 1);
        let prev = rows_upto(counts, expanded, n - 1);
        assert forall|k: int| 0 <= k < prev.len() implies #[trigger] rows_upto(counts, expanded, n)[k] == prev[k] by {}
    }
}

/// Expanding artist `a` keeps every row up to and including the rows
/// before `a`'s albums where it was: a selected row of artist `a` or
/// earlier stays the same row.
pub proof fn lemma_rows_selection_kept(counts: Seq<nat>, expanded: Seq<bool>, a: int, s: int)
    requires
        expanded.len() <= usize::MAX,
        forall|k: int| 0 <= k < counts.len() ==> #[trigger] counts[k] <= usize::MAX,
        0 <= a < expanded.len(),
        expanded.len() <= counts.len(),
        !expanded[a],
        0 <= s < rows_upto(counts, expanded, expanded.len() as int).len(),
        rows_upto(counts, expanded, expanded.len() as int)[s].artist == a,
    ensures
        s < rows_upto(counts, expanded.update(a, true), expanded.len() as int).len(),
        rows_upto(counts, expanded.update(a, true), expanded.len() as int)[s]
            == rows_upto(counts, expanded, expanded.len() as int)[s],
{
    lemma_rows_prefix_kept(counts, expanded, a, expanded.len() as int);
    lemma_rows_upto_artists(counts, expanded, a);
    lemma_rows_position_of_artist(counts, expanded, a, expanded.len() as int, s);
}

/// Rows of artists before `a`, and the row of `a` itself, do not depend on
/// whether `a` is expanded.
proof fn lemma_rows_prefix_kept(counts: Seq<nat>, expanded: Seq<bool>, a: int, n: int)
    requires
        0 <= a < n <= expanded.len(),
        !expanded[a],
    ensures
        rows_upto(counts, expanded.update(a, true), n).len() >= rows_upto(counts, expanded, a + 1).len(),
        forall|k: int| 0 <= k < rows_upto(counts, expanded, a + 1).len() ==> #[trigger] rows_upto(counts, expanded.update(a, true), n)[k] == rows_upto(counts, expanded, a + 1)[k],
        forall|k: int| 0 <= k < rows_upto(counts, expanded, a + 1).len() ==> #[trigger] rows_upto(counts, expanded, n)[k] == rows_upto(counts, expanded, a + 1)[k],
{
    let e2 = expanded.update(a, true);
    lemma_rows_same_before(counts, expanded, e2, a);
    let before = rows_upto(counts, expanded, a);
    assert(artist_rows(a, counts[a], false) =~= seq![RowIndex { artist: a as usize, album: None }]);
    assert(rows_upto(counts, expanded, a + 1) == before + artist_rows(a, counts[a], false));
    assert(rows_upto(counts, e2, a + 1) == before + artist_rows(a, counts[a], true));
    lemma_rows_prefix(counts, e2, a + 1, n);
    lemma_rows_prefix(counts, expanded, a + 1, n);
    assert forall|k: int| 0 <= k < rows_upto(counts, expanded, a + 1).len() implies #[trigger] rows_upto(counts, e2, a + 1)[k] == rows_upto(counts, expanded, a + 1)[k] by {
        if k < before.len() {
        } else {
            assert(k == before.len());
        }
    }
}

/// Rows of the first `a` artists only depend on their own flags.
proof fn lemma_rows_same_before(counts: Seq<nat>, e1: Seq<bool>, e2: Seq<bool>, a: int)
    requires
        0 <= a,
        a <= e1.len(),
        a <= e2.len(),
        forall|k: int| 0 <= k < a ==> e1[k] == e2[k],
    ensures
        rows_upto(counts, e1, a) == rows_upto(counts, e2, a),
    decreases a,
{
    if a > 0 {
        lemma_rows_same_before(counts, e1, e2, a - 1);
    }
}

/// A row of artist `a` among all the rows is within the rows of the first
/// `a + 1` artists, and before its albums it is the artist's own row.
proof fn lemma_rows_position_of_artist(counts: Seq<nat>, expanded: Seq<bool>, a: int, n: int, s: int)
    requires
        n <= usize::MAX,
        forall|k: int| 0 <= k < counts.len() ==> #[trigger] counts[k] <= usize::MAX,
        0 <= a < n <= expanded.len(),
        n <= counts.len(),
        !expanded[a],
        0 <= s < rows_upto(counts, expanded, n).len(),
        rows_upto(counts, expanded, n)[s].artist == a,
    ensures
        s < rows_upto(counts, expanded, a + 1).len(),
    decreases n,
{
    lemma_rows_upto_artists(counts, expanded, a + 1);
    if n > a + 1 {
        let prev = rows_upto(counts, expanded, n - 1);
        if s >= prev.len() {
            let own = artist_rows(n - 1, counts[n - 1], expanded[n - 1]);
            assert(rows_upto(counts, expanded, n)[s] == own[s - prev.len()]);
            if s - prev.len() > 0 {
                assert(own[s - prev.len()] == RowIndex { artist: (n - 1) as usize, album: Some((s - prev.len() - 1) as usize) });
            }
            assert(own[s - prev.len()].artist == n - 1);
        } else {
            assert(rows_upto(counts, expanded, n)[s] == prev[s]);
            lemma_rows_position_of_artist(counts, expanded, a, n - 1, s);
        }
    }
}

/// The row of a collapsed artist `a` at `s` is the first row of that
/// artist.
proof fn lemma_collapsed_artist_row_first(counts: Seq<nat>, expanded: Seq<bool>, a: int, s: int)
    requires
        expanded.len() <= usize::MAX,
        forall|k: int| 0 <= k < counts.len() ==> #[trigger] counts[k] <= usize::MAX,
        0 <= a < expanded.len(),
        expanded.len() <= counts.len(),
        !expanded[a],
        0 <= s < rows_upto(counts, expanded, expanded.len() as int).len(),
        rows_upto(counts, expanded, expanded.len() as int)[s].artist == a,
    ensures
        forall|k: int| 0 <= k < s ==> (#[trigger] rows_upto(counts, expanded, expanded.len() as int)[k]).artist != a,
{
    let n = expanded.len() as int;
    let rows = rows_upto(counts, expanded, n);
    lemma_rows_position_of_artist(counts, expanded, a, n, s);
    lemma_rows_upto_artists(counts, expanded, a);
    lemma_rows_prefix(counts, expanded, a + 1, n);
    let before = rows_upto(counts, expanded, a);
    assert(artist_rows(a, counts[a], false) =~= seq![RowIndex { artist: a as usize, album: None }]);
    assert(rows_upto(counts, expanded, a + 1) == before + artist_rows(a, counts[a], false));
    assert forall|k: int| 0 <= k < s implies (#[trigger] rows[k]).artist != a by {
        assert(rows[k] == rows_upto(counts, expanded, a + 1)[k]);
        if k < before.len() {
            assert(rows_upto(counts, expanded, a + 1)[k] == before[k]);
            assert(before[k].artist < a);
        } else {
            assert(s < before.len() + 1);
        }
    }
}

/// Toggling a collapsed artist's own row twice leaves the list as it was:
/// the first toggle expands the artist and keeps the selection, the second
/// collapses it and selects the artist's row again.
pub proof fn lemma_toggle_twice_restores(v: ArtistAlbumListView, w: ArtistAlbumListView, x: ArtistAlbumListView)
    requires
        list_wf(v),
        list_wf(w),
        list_wf(x),
        v.selected matches Some(s) && v.rows[s as int].album is None && !v.expanded[v.rows[s as int].artist as int],
        toggle_outcome(v, w),
        toggle_outcome(w, x),
    ensures
        x == v,
{
    let s = v.selected->Some_0 as int;
    let counts = album_counts(v.artists);
    let n = v.artists.len() as int;
    assert forall|k: int| 0 <= k < counts.len() implies #[trigger] counts[k] <= usize::MAX by {
        assert(counts[k] == v.artists[k].1.len());
    }
    lemma_rows_upto_artists(counts, v.expanded, n);
    let a = v.rows[s].artist as int;
    assert(0 <= a < n);
    assert(w.expanded == v.expanded.update(a, true));
    assert(w.selected == v.selected);
    lemma_rows_selection_kept(counts, v.expanded, a, s);
    assert(album_counts(w.artists) == counts);
    assert(w.rows[s] == v.rows[s]);
    assert(w.expanded[a]);
    assert(x.expanded == w.expanded.update(a, false));
    assert(x.expanded =~= v.expanded);
    assert(x.artists == v.artists);
    assert(album_counts(x.artists) == counts);
    assert(x.rows == v.rows);
    let i = x.selected->Some_0 as int;
    assert(first_row(x.rows, is_artist_row(a as usize), i));
    lemma_collapsed_artist_row_first(counts, v.expanded, a, s);
    if i < s {
        assert(v.rows[i].artist != a);
        assert(is_artist_row(a as usize)(x.rows[i]));
    } else if i > s {
        assert(!is_artist_row(a as usize)(x.rows[s]));
    }
    assert(x.selected == v.selected);
}

} // verus!
