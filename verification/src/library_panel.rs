//! The library panel: the artist/album list beside the track list of the
//! selected artist or album.
use std::sync::Arc;
use vstd::prelude::*;
use crate::library::{Album, Artist, ArtistName, AlbumName, Library, Track, artist_index, album_index, display_name, artist_wf};
use crate::mimi::text::str_chars;
use crate::order::{chars_lt, chars_less, lemma_chars_lt_irreflexive, lemma_chars_lt_total, lemma_chars_lt_transitive, is_permutation_of_range, stable_sort_indices, stably_sorted, strict_weak_order};
use crate::play_queue::share;
use crate::ui::artist_album_list::{ArtistAlbumList, ArtistAlbumListView, SelectError, library_album_names, list_wf, lemma_rows_upto_artists, lemma_rows_album_in_range, album_counts, select_outcome, album_view};
use crate::ui::search::SearchItem;
use crate::ui::track_list::{ItemView, TrackList, TrackListItem, TrackListView, item_views, item_title, track_moved};

verus! {

/// Which half of the panel has the focus.
#[derive(Debug, Copy, Clone, PartialEq, Eq, Structural)]
pub enum PanelItem {
    ArtistAlbumList,
    TrackList,
}

impl PanelItem {
    /// The other half: focus moves round in a cycle.
    pub fn next(&self) -> (n: PanelItem)
        ensures
            n == match *self {
                PanelItem::ArtistAlbumList => PanelItem::TrackList,
                PanelItem::TrackList => PanelItem::ArtistAlbumList,
            },
    {
        match self {
            PanelItem::ArtistAlbumList => PanelItem::TrackList,
            PanelItem::TrackList => PanelItem::ArtistAlbumList,
        }
    }
}

impl Default for PanelItem {
    /// The artist/album list.
    fn default() -> (p: PanelItem)
        ensures
            p == PanelItem::ArtistAlbumList,
    {
        PanelItem::ArtistAlbumList
    }
}

/// Every artist of the list is an artist of the library, and each album
/// listed for them is one of theirs.
pub open spec fn list_in_library(v: ArtistAlbumListView, library: Library) -> bool {
    forall|i: int| 0 <= i < v.artists.len() ==> exists|j: int| 0 <= j < library.artists@.len()
        && #[trigger] library.artists@[j].name@ == (#[trigger] v.artists[i]).0
        && forall|k: int| 0 <= k < v.artists[i].1.len() ==> library_album_names(library.artists@[j]).contains(#[trigger] v.artists[i].1[k])
}

/// Rows for the tracks of an album.
pub open spec fn track_items(tracks: Seq<Arc<Track>>) -> Seq<ItemView> {
    tracks.map_values(|t: Arc<Track>| ItemView::Track(t))
}

/// For each album of `order`, a heading with its name as shown, then its
/// tracks.
pub open spec fn sectioned(albums: Seq<Album>, order: Seq<usize>) -> Seq<ItemView>
    decreases order.len(),
{
    if order.len() == 0 {
        Seq::empty()
    } else {
        let al = albums[order.last() as int];
        sectioned(albums, order.drop_last()) + seq![ItemView::Section(display_name(al.name@))] + track_items(al.tracks@)
    }
}

/// Albums ordered by their names as shown, as an order on positions.
pub open spec fn by_display_name(albums: Seq<Album>) -> spec_fn(int, int) -> bool {
    |i: int, j: int| chars_lt(display_name(albums[i].name@), display_name(albums[j].name@))
}

/// The rows listing all albums of `artist`: sections in order of the
/// albums' names as shown (albums whose names show the same in their
/// order), each with its tracks.
pub open spec fn artist_sections(artist: Artist, items: Seq<ItemView>) -> bool {
    exists|p: Seq<usize>|
        is_permutation_of_range(p, artist.albums@.len() as int) && stably_sorted(by_display_name(artist.albums@), p)
            && items == sectioned(artist.albums@, p)
}

/// The rows shown for the list's selection: the tracks of the selected
/// album, or all albums of the selected artist in sections.
pub open spec fn rows_for_selection(list: ArtistAlbumListView, library: Library, items: Seq<ItemView>) -> bool {
    match list.selected {
        None => true,
        Some(s) => {
            let row = list.rows[s as int];
            let name = list.artists[row.artist as int].0;
            forall|a: int| #[trigger] artist_index(library.artists@, name, a) ==> match row.album {
                Some(k) => forall|b: int| #[trigger] album_index(library.artists@[a].albums@, list.artists[row.artist as int].1[k as int], b)
                    ==> items == track_items(library.artists@[a].albums@[b].tracks@),
                None => artist_sections(library.artists@[a], items),
            }
        },
    }
}

/// The artist/album list and the track list, and which has the focus.
#[derive(Debug)]
pub struct LibraryPanel {
    pub focus: PanelItem,
    pub artist_album_list: ArtistAlbumList,
    pub track_list: TrackList,
}

/// The contents of a [`LibraryPanel`].
pub struct LibraryPanelView {
    pub focus: PanelItem,
    pub list: ArtistAlbumListView,
    pub tracks: TrackListView,
}

impl View for LibraryPanel {
    type V = LibraryPanelView;

    open spec fn view(&self) -> LibraryPanelView {
        LibraryPanelView { focus: self.focus, list: self.artist_album_list@, tracks: self.track_list@ }
    }
}

/// The track list now shows what the list has selected, with nothing
/// selected in it; with nothing selected in the list it is unchanged.
pub open spec fn tracks_updated(old: LibraryPanelView, new: LibraryPanelView, library: Library) -> bool {
    &&& new.focus == old.focus
    &&& new.list == old.list
    &&& old.list.selected is None ==> new.tracks == old.tracks
    &&& old.list.selected is Some ==> {
        &&& new.tracks.selected is None
        &&& rows_for_selection(old.list, library, new.tracks.items)
    }
}

/// Moving by `amount` moved the selection of the focused list; moving in the
/// artist/album list updated the track list.
pub open spec fn panel_moved(old: LibraryPanelView, new: LibraryPanelView, library: Library, amount: isize) -> bool {
    &&& new.focus == old.focus
    &&& old.focus == PanelItem::TrackList ==> {
        &&& new.list == old.list
        &&& new.tracks.items == old.tracks.items
        &&& track_moved(old.tracks, amount, new.tracks.selected)
    }
    &&& old.focus == PanelItem::ArtistAlbumList ==> tracks_updated(
        LibraryPanelView {
            list: ArtistAlbumListView {
                selected: crate::ui::artist_album_list::moved_selection(old.list.selected, amount, old.list.rows.len()),
                ..old.list
            },
            ..old
        },
        new,
        library,
    )
}

/// Showing the search result `item` took the panel from `old` to `new` with
/// result `r`: see [`LibraryPanel::select_entity`].
pub open spec fn entity_shown(old: LibraryPanelView, new: LibraryPanelView, library: Library, item: SearchItem, r: Result<(), SelectError>) -> bool {
    &&& new.focus == old.focus
    &&& select_outcome(old.list, new.list, result_artist(item), result_album(item), r)
    &&& r is Err ==> new.tracks == old.tracks
    &&& r is Ok ==> {
        &&& rows_for_selection(new.list, library, new.tracks.items)
        &&& match result_title(item) {
            None => new.tracks.selected is None,
            Some(t) => match new.tracks.selected {
                Some(i) => i < new.tracks.items.len() && item_title(new.tracks.items[i as int]) == Some(t)
                    && forall|k: int| 0 <= k < i ==> item_title(#[trigger] new.tracks.items[k]) != Some(t),
                None => forall|k: int| 0 <= k < new.tracks.items.len() ==> item_title(#[trigger] new.tracks.items[k]) != Some(t),
            },
        }
    }
}

/// The panel can move by `amount`: in the track list only by one row.
pub open spec fn can_move(p: LibraryPanelView, amount: isize) -> bool {
    p.focus == PanelItem::TrackList ==> amount == 1 || amount == -1
}

/// Character sequences in lexicographic order, as an order on positions.
pub open spec fn vecs_lt(v: Seq<Vec<char>>) -> spec_fn(int, int) -> bool {
    |i: int, j: int| chars_lt(v[i]@, v[j]@)
}

proof fn lemma_vecs_order(v: Seq<Vec<char>>)
    ensures
        strict_weak_order(vecs_lt(v), v.len() as int),
{
    let lt = vecs_lt(v);
    assert forall|x: int| 0 <= x < v.len() implies !#[trigger] lt(x, x) by {
        lemma_chars_lt_irreflexive(v[x]@);
    }
    assert forall|x: int, y: int, z: int|
        0 <= x < v.len() && 0 <= y < v.len() && 0 <= z < v.len() && #[trigger] lt(x, y)
            && #[trigger] lt(y, z) implies lt(x, z) by {
        lemma_chars_lt_transitive(v[x]@, v[y]@, v[z]@);
    }
    assert forall|x: int, y: int, z: int|
        0 <= x < v.len() && 0 <= y < v.len() && 0 <= z < v.len() && #[trigger] lt(x, y)
            implies lt(x, z) || #[trigger] lt(z, y) by {
        lemma_chars_lt_total(v[x]@, v[z]@);
        if chars_lt(v[z]@, v[x]@) {
            lemma_chars_lt_transitive(v[z]@, v[x]@, v[y]@);
        }
    }
}

/// The position of the artist named `name`, or the number of artists.
fn find_artist(library: &Library, name: &ArtistName) -> (a: usize)
    ensures
        artist_index(library.artists@, name@, a as int),
{
    let mut a: usize = 0;
    while a < library.artists.len()
        invariant
            0 <= a <= library.artists.len(),
            forall|i: int| 0 <= i < a ==> (#[trigger] library.artists@[i]).name@ != name@,
        decreases library.artists.len() - a,
    {
        if library.artists[a].name.same(name) {
            return a;
        }
        a = a + 1;
    }
    a
}

/// The position of the album named `name`, or the number of albums.
fn find_album(artist: &Artist, name: &AlbumName) -> (b: usize)
    ensures
        album_index(artist.albums@, name@, b as int),
{
    let mut b: usize = 0;
    while b < artist.albums.len()
        invariant
            0 <= b <= artist.albums.len(),
            forall|i: int| 0 <= i < b ==> (#[trigger] artist.albums@[i]).name@ != name@,
        decreases artist.albums.len() - b,
    {
        if artist.albums[b].name.same(name) {
            return b;
        }
        b = b + 1;
    }
    b
}

/// Rows for the given tracks.
fn track_rows(tracks: &Vec<Arc<Track>>) -> (items: Vec<TrackListItem>)
    ensures
        item_views(items@) == track_items(tracks@),
{
    let mut items: Vec<TrackListItem> = Vec::new();
    let mut i: usize = 0;
    while i < tracks.len()
        invariant
            0 <= i <= tracks.len(),
            item_views(items@) == track_items(tracks@.take(i as int)),
        decreases tracks.len() - i,
    {
        let ghost before = items@;
        items.push(TrackListItem::Track(share(&tracks[i])));
        proof {
            assert(item_views(items@) =~= item_views(before).push(ItemView::Track(tracks@[i as int])));
            assert(track_items(tracks@.take(i + 1)) =~= track_items(tracks@.take(i as int)).push(ItemView::Track(tracks@[i as int])));
        }
        i = i + 1;
    }
    assert(tracks@.take(tracks@.len() as int) =~= tracks@);
    items
}

/// The rows listing all albums of `artist` in sections.
fn section_rows(artist: &Artist) -> (items: Vec<TrackListItem>)
    ensures
        artist_sections(*artist, item_views(items@)),
{
    let mut names: Vec<Vec<char>> = Vec::new();
    let mut titles: Vec<String> = Vec::new();
    let mut i: usize = 0;
    while i < artist.albums.len()
        invariant
            0 <= i <= artist.albums.len(),
            names@.len() == i,
            titles@.len() == i,
            forall|k: int| 0 <= k < i ==> (#[trigger] names@[k])@ == display_name(artist.albums@[k].name@),
            forall|k: int| 0 <= k < i ==> (#[trigger] titles@[k])@ == display_name(artist.albums@[k].name@),
        decreases artist.albums.len() - i,
    {
        let title = artist.albums[i].name.display();
        names.push(str_chars(title.as_str()));
        titles.push(title);
        i = i + 1;
    }
    proof {
        lemma_vecs_order(names@);
    }
    let n = artist.albums.len();
    let less = |x: usize, y: usize| -> (r: bool)
        requires
            x < names.len(),
            y < names.len(),
        ensures
            r == chars_lt(names@[x as int]@, names@[y as int]@),
        { chars_less(&names[x], &names[y]) };
    let ghost keys = names@;
    let p = stable_sort_indices(n, less, Ghost(vecs_lt(keys)));
    proof {
        let lt = by_display_name(artist.albums@);
        assert forall|a: int, b: int| 0 <= a < b < p@.len() implies crate::order::stable_before(lt, #[trigger] p@[a] as int, #[trigger] p@[b] as int) by {
            assert(crate::order::stable_before(vecs_lt(keys), p@[a] as int, p@[b] as int));
            assert(keys[p@[a] as int]@ == display_name(artist.albums@[p@[a] as int].name@));
            assert(keys[p@[b] as int]@ == display_name(artist.albums@[p@[b] as int].name@));
        }
    }
    let mut items: Vec<TrackListItem> = Vec::new();
    let mut k: usize = 0;
    while k < p.len()
        invariant
            0 <= k <= p.len(),
            n == artist.albums@.len(),
            titles@.len() == n,
            is_permutation_of_range(p@, n as int),
            forall|m: int| 0 <= m < n ==> (#[trigger] titles@[m])@ == display_name(artist.albums@[m].name@),
            item_views(items@) == sectioned(artist.albums@, p@.take(k as int)),
        decreases p.len() - k,
    {
        let b = p[k];
        let ghost before = items@;
        items.push(TrackListItem::Section(titles[b].clone()));
        let album = &artist.albums[b];
        let mut t: usize = 0;
        while t < album.tracks.len()
            invariant
                0 <= t <= album.tracks.len(),
                item_views(items@) == item_views(before) + seq![ItemView::Section(display_name(album.name@))] + track_items(album.tracks@.take(t as int)),
            decreases album.tracks.len() - t,
        {
            let ghost mid = items@;
            items.push(TrackListItem::Track(share(&album.tracks[t])));
            proof {
                assert(item_views(items@) =~= item_views(mid).push(ItemView::Track(album.tracks@[t as int])));
                assert(track_items(album.tracks@.take(t + 1)) =~= track_items(album.tracks@.take(t as int)).push(ItemView::Track(album.tracks@[t as int])));
            }
            t = t + 1;
        }
        proof {
            let next = p@.take(k + 1);
            assert(next.drop_last() =~= p@.take(k as int));
            assert(next.last() == b);
            assert(album.tracks@.take(album.tracks@.len() as int) =~= album.tracks@);
        }
        k = k + 1;
    }
    assert(p@.take(p@.len() as int) =~= p@);
    items
}

impl LibraryPanel {
    /// Both lists are consistent, and the artist/album list shows the
    /// library.
    pub open spec fn wf(self, library: Library) -> bool {
        &&& self.artist_album_list.wf()
        &&& self.track_list.wf()
        &&& library.wf()
        &&& list_in_library(self.artist_album_list@, library)
    }

    /// The panel for `library`: its artists, nothing selected, no tracks,
    /// the focus on the artist/album list.
    pub fn new(library: &Library) -> (p: LibraryPanel)
        requires
            library.wf(),
        ensures
            p.wf(*library),
            p.focus == PanelItem::ArtistAlbumList,
            p.artist_album_list@.selected is None,
            p.track_list@.items.len() == 0,
            p.track_list@.selected is None,
    {
        let list = ArtistAlbumList::new(library);
        let p = LibraryPanel { focus: PanelItem::ArtistAlbumList, artist_album_list: list, track_list: TrackList::default() };
        proof {
            let v = p.artist_album_list@;
            assert forall|i: int| 0 <= i < v.artists.len() implies exists|j: int| 0 <= j < library.artists@.len()
                && #[trigger] library.artists@[j].name@ == (#[trigger] v.artists[i]).0
                && forall|k: int| 0 <= k < v.artists[i].1.len() ==> library_album_names(library.artists@[j]).contains(#[trigger] v.artists[i].1[k]) by {
                let j = choose|j: int| 0 <= j < library.artists@.len() && #[trigger] library.artists@[j].name@ == (#[trigger] v.artists[i]).0
                    && crate::ui::artist_album_list::sorted_names_of(library_album_names(library.artists@[j]), v.artists[i].1);
                assert(library.artists@[j].name@ == v.artists[i].0);
            }
        }
        p
    }

    /// Shows the tracks of what the artist/album list has selected: the
    /// selected album's tracks, or all albums of the selected artist in
    /// sections. Nothing changes when nothing is selected.
    pub fn update_track_list(&mut self, library: &Library)
        requires
            old(self).wf(*library),
        ensures
            final(self).wf(*library),
            tracks_updated(old(self)@, final(self)@, *library),
    {
        let ghost lv = self.artist_album_list@;
        let artist = match self.artist_album_list.artist() {
            Some(a) => a,
            None => {
                return;
            },
        };
        let ghost s = lv.selected->Some_0;
        let ghost row = lv.rows[s as int];
        proof {
            lemma_rows_upto_artists(album_counts(lv.artists), lv.expanded, lv.artists.len() as int);
            assert(row.artist < lv.artists.len());
            let i = row.artist as int;
            assert(lv.artists[i] == lv.artists[i]);
        }
        let a = find_artist(library, &artist);
        proof {
            let i = row.artist as int;
            let j = choose|j: int| 0 <= j < library.artists@.len() && #[trigger] library.artists@[j].name@ == (#[trigger] lv.artists[i]).0
                && forall|k: int| 0 <= k < lv.artists[i].1.len() ==> library_album_names(library.artists@[j]).contains(#[trigger] lv.artists[i].1[k]);
            assert(library.artists@[j].name@ == artist@);
            assert(a < library.artists@.len());
            assert forall|a2: int| #[trigger] artist_index(library.artists@, artist@, a2) implies a2 == a by {
                if a2 != a && a2 < library.artists@.len() {
                    assert(library.artists@[a2].name@ == library.artists@[a as int].name@);
                    if a2 < a {
                        assert(library.artists@[a2].name@ != library.artists@[a as int].name@);
                    } else {
                        assert(library.artists@[a as int].name@ != library.artists@[a2].name@);
                    }
                }
            }
        }
        let items = match self.artist_album_list.album() {
            Some(album) => {
                let b = find_album(&library.artists[a], &album);
                proof {
                    let i = row.artist as int;
                    let k = row.album->Some_0 as int;
                    let j = choose|j: int| 0 <= j < library.artists@.len() && #[trigger] library.artists@[j].name@ == (#[trigger] lv.artists[i]).0
                        && forall|k: int| 0 <= k < lv.artists[i].1.len() ==> library_album_names(library.artists@[j]).contains(#[trigger] lv.artists[i].1[k]);
                    assert(j == a);
                    lemma_rows_album_in_range_pub(lv, s as int);
                    assert(library_album_names(library.artists@[j]).contains(lv.artists[i].1[k]));
                    let m = choose|m: int| 0 <= m < library_album_names(library.artists@[j]).len() && library_album_names(library.artists@[j])[m] == lv.artists[i].1[k];
                    assert(library.artists@[j].albums@[m].name@ == album@);
                    assert(b < library.artists@[a as int].albums@.len());
                    let art = library.artists@[a as int];
                    assert(artist_wf(art));
                    assert forall|b2: int| #[trigger] album_index(art.albums@, album@, b2) implies b2 == b by {
                        if b2 != b && b2 < art.albums@.len() {
                            if b2 < b {
                                assert(art.albums@[b2].name@ != art.albums@[b as int].name@);
                            } else {
                                assert(art.albums@[b as int].name@ != art.albums@[b2].name@);
                            }
                        }
                    }
                }
                track_rows(&library.artists[a].albums[b].tracks)
            },
            None => section_rows(&library.artists[a]),
        };
        self.track_list = TrackList::new(items);
    }

    /// Moves the selection of the focused list (see
    /// [`ArtistAlbumList::move_selection`] and
    /// [`TrackList::move_selection`]); moving in the artist/album list
    /// updates the track list.
    pub fn move_selection(&mut self, library: &Library, amount: isize) -> (r: Result<(), SelectError>)
        requires
            old(self).wf(*library),
            can_move(old(self)@, amount),
        ensures
            r is Ok,
            final(self).wf(*library),
            panel_moved(old(self)@, final(self)@, *library, amount),
    {
        match self.focus {
            PanelItem::ArtistAlbumList => {
                self.artist_album_list.move_selection(amount);
                self.update_track_list(library);
                Ok(())
            },
            PanelItem::TrackList => {
                self.track_list.move_selection(amount);
                Ok(())
            },
        }
    }

    /// Shows a search result: selects its artist (and album) in the
    /// artist/album list, shows the tracks, and selects the track with the
    /// result's title, if it is a track. Fails, changing nothing, if the
    /// list doesn't have the artist or album.
    pub fn select_entity(&mut self, library: &Library, result: &SearchItem) -> (r: Result<(), SelectError>)
        requires
            old(self).wf(*library),
        ensures
            final(self).wf(*library),
            entity_shown(old(self)@, final(self)@, *library, *result, r),
    {
        let artist = result.album_artist();
        let album = result.album();
        match self.artist_album_list.select(artist, album) {
            Ok(()) => {},
            Err(e) => {
                return Err(e);
            },
        }
        proof {
            assert(list_in_library(self.artist_album_list@, *library));
        }
        self.update_track_list(library);
        match result.track_title() {
            Some(title) => self.track_list.select(title.as_str()),
            None => {},
        }
        Ok(())
    }
}

/// The artist of a search result.
pub open spec fn result_artist(item: SearchItem) -> Option<Seq<char>> {
    match item {
        SearchItem::Artist(artist) => artist@,
        SearchItem::Album(_, artist) => artist@,
        SearchItem::Track(track) => track.artist@,
    }
}

/// The album of a search result, if it has one.
pub open spec fn result_album(item: SearchItem) -> Option<Option<Seq<char>>> {
    match item {
        SearchItem::Artist(_) => None,
        SearchItem::Album(album, _) => Some(album@),
        SearchItem::Track(track) => Some(track.album@),
    }
}

/// The title of a track result.
pub open spec fn result_title(item: SearchItem) -> Option<Seq<char>> {
    match item {
        SearchItem::Track(track) => match track.title {
            Some(s) => Some(s@),
            None => None,
        },
        _ => None,
    }
}

proof fn lemma_rows_album_in_range_pub(lv: ArtistAlbumListView, s: int)
    requires
        list_wf(lv),
        0 <= s < lv.rows.len(),
    ensures
        lv.rows[s].artist < lv.artists.len(),
        lv.rows[s].album matches Some(k) ==> k < lv.artists[lv.rows[s].artist as int].1.len(),
{
    assert forall|k: int| 0 <= k < album_counts(lv.artists).len() implies #[trigger] album_counts(lv.artists)[k] <= usize::MAX by {
        assert(album_counts(lv.artists)[k] == lv.artists[k].1.len());
    }
    lemma_rows_album_in_range(album_counts(lv.artists), lv.expanded, lv.artists.len() as int, s);
}

} // verus!
