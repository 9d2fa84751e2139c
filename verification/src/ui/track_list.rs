//! The list of tracks shown next to the artist/album list, split into
//! sections under non-selectable headings.
use std::sync::Arc;
use vstd::prelude::*;
use crate::library::Track;
use crate::play_queue::share;
use crate::ui::artist_album_list::saturating_add_signed;

verus! {

/// One row of the track list.
#[derive(Debug)]
pub enum TrackListItem {
    /// An actual track.
    Track(Arc<Track>),
    /// A section heading. This is not selectable.
    Section(String),
}

/// The contents of a row: a track, or a heading's text.
pub enum ItemView {
    Track(Arc<Track>),
    Section(Seq<char>),
}

impl View for TrackListItem {
    type V = ItemView;

    open spec fn view(&self) -> ItemView {
        match self {
            TrackListItem::Track(t) => ItemView::Track(*t),
            TrackListItem::Section(s) => ItemView::Section(s@),
        }
    }
}

impl TrackListItem {
    /// Only tracks can be selected.
    pub fn selectable(&self) -> (b: bool)
        ensures
            b == self@ is Track,
    {
        match self {
            TrackListItem::Track(_) => true,
            TrackListItem::Section(_) => false,
        }
    }
}

pub open spec fn item_views(items: Seq<TrackListItem>) -> Seq<ItemView> {
    items.map_values(|i: TrackListItem| i@)
}

/// The rows, and the selected one.
#[derive(Debug)]
pub struct TrackList {
    items: Vec<TrackListItem>,
    selected: Option<usize>,
}

pub struct TrackListView {
    pub items: Seq<ItemView>,
    pub selected: Option<usize>,
}

impl View for TrackList {
    type V = TrackListView;

    closed spec fn view(&self) -> TrackListView {
        TrackListView { items: item_views(self.items@), selected: self.selected }
    }
}

/// The first row at or after `start` that holds a track.
pub open spec fn first_track_from(items: Seq<ItemView>, start: int, i: int) -> bool {
    &&& start <= i < items.len()
    &&& items[i] is Track
    &&& forall|k: int| start <= k < i ==> !(#[trigger] items[k] is Track)
}

/// The last row at or before `start` that holds a track.
pub open spec fn last_track_upto(items: Seq<ItemView>, start: int, i: int) -> bool {
    &&& 0 <= i <= start
    &&& items[i] is Track
    &&& forall|k: int| i < k <= start ==> !(#[trigger] items[k] is Track)
}

/// Some row at or after `start` holds a track.
pub open spec fn track_from(items: Seq<ItemView>, start: int) -> bool {
    exists|k: int| start <= k < items.len() && #[trigger] items[k] is Track
}

/// Some row at or before `start` holds a track.
pub open spec fn track_upto(items: Seq<ItemView>, start: int) -> bool {
    exists|k: int| 0 <= k <= start && #[trigger] items[k] is Track
}

/// The selection `new_selected` after moving by `amount` from `old`: from
/// where the move starts (see [`move_candidate`]), the nearest track in the
/// direction of the move; when there is none, the move would go off the
/// edge and the selection stays as it was.
pub open spec fn track_moved(old: TrackListView, amount: isize, new_selected: Option<usize>) -> bool {
    if old.items.len() == 0 {
        new_selected == old.selected
    } else {
        match move_candidate(old.selected, amount, old.items.len()) {
            None => new_selected == old.selected,
            Some(c) => if amount > 0 {
                if track_from(old.items, c) {
                    new_selected matches Some(i) && first_track_from(old.items, c, i as int)
                } else {
                    new_selected == old.selected
                }
            } else {
                if track_upto(old.items, c) {
                    new_selected matches Some(i) && last_track_upto(old.items, c, i as int)
                } else {
                    new_selected == old.selected
                }
            },
        }
    }
}

/// Where a move by `amount` starts looking: the selection moved and kept
/// within the rows, or the first row when moving down from no selection.
pub open spec fn move_candidate(selected: Option<usize>, amount: isize, n: nat) -> Option<int> {
    match selected {
        Some(s) => Some(if saturating_add_signed(s, amount) < n - 1 {
            saturating_add_signed(s, amount)
        } else {
            n - 1
        }),
        None => if amount > 0 {
            Some(0)
        } else {
            None
        },
    }
}

/// The title of a track row, if it has one.
pub open spec fn item_title(item: ItemView) -> Option<Seq<char>> {
    match item {
        ItemView::Track(t) => match t.title {
            Some(s) => Some(s@),
            None => None,
        },
        ItemView::Section(_) => None,
    }
}

/// The tracks of the rows, in order.
pub open spec fn tracks_of(items: Seq<ItemView>) -> Seq<Arc<Track>>
    decreases items.len(),
{
    if items.len() == 0 {
        Seq::empty()
    } else {
        tracks_of(items.drop_last()) + match items.last() {
            ItemView::Track(t) => seq![t],
            ItemView::Section(_) => Seq::empty(),
        }
    }
}

impl TrackList {
    /// The selection, if any, is a track row.
    pub open spec fn wf(self) -> bool {
        self@.selected matches Some(i) ==> i < self@.items.len() && self@.items[i as int] is Track
    }

    /// A list of the given rows, with nothing selected.
    pub fn new(items: Vec<TrackListItem>) -> (l: TrackList)
        ensures
            l.wf(),
            l@.items == item_views(items@),
            l@.selected is None,
    {
        TrackList { items, selected: None }
    }

    /// The rows.
    pub fn items(&self) -> (r: &Vec<TrackListItem>)
        ensures
            item_views(r@) == self@.items,
    {
        &self.items
    }

    /// The position of the selected row, if any.
    pub fn selected_index(&self) -> (s: Option<usize>)
        ensures
            s == self@.selected,
    {
        self.selected
    }

    /// Moves the selection by one row up (`-1`) or down (`1`), skipping
    /// headings. When that would go off the edge, the selection stays as it
    /// was (see [`track_moved`]).
    pub fn move_selection(&mut self, amount: isize)
        requires
            old(self).wf(),
            amount == 1 || amount == -1,
        ensures
            final(self).wf(),
            final(self)@.items == old(self)@.items,
            track_moved(old(self)@, amount, final(self)@.selected),
    {
        if self.items.len() == 0 {
            return;
        }
        let candidate: Option<usize> = match self.selected {
            Some(selected) => Some(crate::ui::artist_album_list::clamp_add_signed(selected, amount, self.items.len() - 1)),
            None => if amount > 0 {
                Some(0)
            } else {
                None
            },
        };
        if let Some(start) = candidate {
            if let Some(i) = self.next_valid_selection(start, amount) {
                self.selected = Some(i);
            }
        }
    }

    /// `start` if that row is a track; otherwise the nearest track row in
    /// the direction of `direction`'s sign, if any.
    fn next_valid_selection(&self, start: usize, direction: isize) -> (r: Option<usize>)
        requires
            start < self@.items.len(),
            direction != 0,
        ensures
            direction > 0 ==> match r {
                Some(i) => first_track_from(self@.items, start as int, i as int),
                None => !track_from(self@.items, start as int),
            },
            direction < 0 ==> match r {
                Some(i) => last_track_upto(self@.items, start as int, i as int),
                None => !track_upto(self@.items, start as int),
            },
    {
        if direction > 0 {
            let mut i = start;
            while i < self.items.len()
                invariant
                    start <= i <= self.items.len(),
                    direction > 0,
                    self@.items.len() == self.items@.len(),
                    forall|k: int| start <= k < i ==> !(#[trigger] self@.items[k] is Track),
                decreases self.items.len() - i,
            {
                if self.items[i].selectable() {
                    return Some(i);
                }
                i = i + 1;
            }
            None
        } else {
            let mut i = start;
            loop
                invariant
                    i <= start,
                    start < self.items.len(),
                    direction < 0,
                    self@.items.len() == self.items@.len(),
                    forall|k: int| i < k <= start ==> !(#[trigger] self@.items[k] is Track),
                decreases i,
            {
                if self.items[i].selectable() {
                    return Some(i);
                }
                if i == 0 {
                    return None;
                }
                i = i - 1;
            }
        }
    }

    /// Selects the first track whose title is `title`; clears the selection
    /// if there is none.
    pub fn select(&mut self, title: &str)
        requires
            old(self).wf(),
        ensures
            final(self).wf(),
            final(self)@.items == old(self)@.items,
            match final(self)@.selected {
                Some(i) => i < old(self)@.items.len() && item_title(old(self)@.items[i as int]) == Some(title@)
                    && forall|k: int| 0 <= k < i ==> item_title(#[trigger] old(self)@.items[k]) != Some(title@),
                None => forall|k: int| 0 <= k < old(self)@.items.len() ==> item_title(#[trigger] old(self)@.items[k]) != Some(title@),
            },
    {
        let wanted = title.to_string();
        let mut i: usize = 0;
        while i < self.items.len()
            invariant
                0 <= i <= self.items.len(),
                wanted@ == title@,
                self@.items.len() == self.items@.len(),
                self@ == old(self)@,
                self.wf(),
                forall|k: int| 0 <= k < i ==> item_title(#[trigger] self@.items[k]) != Some(title@),
            decreases self.items.len() - i,
        {
            let hit = match &self.items[i] {
                TrackListItem::Track(track) => match &track.title {
                    Some(t) => *t == wanted,
                    None => false,
                },
                TrackListItem::Section(_) => false,
            };
            assert(hit == (item_title(self@.items[i as int]) == Some(title@)));
            if hit {
                self.selected = Some(i);
                return;
            }
            i = i + 1;
        }
        self.selected = None;
    }

    /// The selected track, if any.
    pub fn selected(&self) -> (t: Option<Arc<Track>>)
        requires
            self.wf(),
        ensures
            match self@.selected {
                Some(i) => self@.items[i as int] matches ItemView::Track(track) && t == Some(track),
                None => t is None,
            },
    {
        match self.selected {
            Some(i) => match &self.items[i] {
                TrackListItem::Track(track) => Some(share(track)),
                TrackListItem::Section(_) => None,
            },
            None => None,
        }
    }

    /// The tracks of the list, in order, without the headings.
    pub fn tracks(&self) -> (r: Vec<Arc<Track>>)
        ensures
            r@ == tracks_of(self@.items),
    {
        let mut r: Vec<Arc<Track>> = Vec::new();
        let mut i: usize = 0;
        while i < self.items.len()
            invariant
                0 <= i <= self.items.len(),
                self@.items.len() == self.items@.len(),
                r@ == tracks_of(self@.items.take(i as int)),
            decreases self.items.len() - i,
        {
            proof {
                let next = self@.items.take(i + 1);
                assert(next.drop_last() =~= self@.items.take(i as int));
                assert(next.last() == self@.items[i as int]);
            }
            match &self.items[i] {
                TrackListItem::Track(track) => {
                    r.push(share(track));
                },
                TrackListItem::Section(_) => {},
            }
            i = i + 1;
        }
        assert(self@.items.take(self.items@.len() as int) =~= self@.items);
        r
    }
}

impl Default for TrackList {
    /// An empty list.
    fn default() -> (l: TrackList)
        ensures
            l.wf(),
            l@.items.len() == 0,
            l@.selected is None,
    {
        TrackList { items: Vec::new(), selected: None }
    }
}

} // verus!
