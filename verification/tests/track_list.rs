use std::sync::Arc;

use deimos::library::Track;
use deimos::ui::track_list::{TrackList, TrackListItem};

fn t(id: u64) -> TrackListItem {
    TrackListItem::Track(Arc::new(Track::test_track(id)))
}

fn s(title: &str) -> TrackListItem {
    TrackListItem::Section(title.to_owned())
}

fn sample() -> TrackList {
    TrackList::new(vec![s("A"), t(0), t(1), s("B"), t(2)])
}

#[test]
fn moving_down_skips_headings() {
    let mut list = sample();
    assert_eq!(list.selected_index(), None);
    list.move_selection(1);
    assert_eq!(list.selected_index(), Some(1));
    list.move_selection(1);
    assert_eq!(list.selected_index(), Some(2));
    list.move_selection(1);
    assert_eq!(list.selected_index(), Some(4));
    list.move_selection(1);
    assert_eq!(list.selected_index(), Some(4));
    assert_eq!(list.selected().map(|t| t.id), Some(2));
}

#[test]
fn moving_up_skips_headings_and_stays_at_the_edge() {
    let mut list = sample();
    list.move_selection(-1);
    assert_eq!(list.selected_index(), None, "moving up from nothing selects nothing");
    list.select("Test track 2");
    assert_eq!(list.selected_index(), Some(4));
    list.move_selection(-1);
    assert_eq!(list.selected_index(), Some(2));
    list.move_selection(-1);
    assert_eq!(list.selected_index(), Some(1));
    list.move_selection(-1);
    assert_eq!(list.selected_index(), Some(1), "nothing selectable above the first track");
}

#[test]
fn moving_up_from_the_first_track_under_a_heading_keeps_it() {
    let mut list = TrackList::new(vec![s("A"), t(7)]);
    list.select("Test track 7");
    list.move_selection(-1);
    assert_eq!(list.selected().map(|t| t.id), Some(7));
}

#[test]
fn moving_down_off_the_edge_does_nothing() {
    let mut list = TrackList::new(vec![t(0), s("B")]);
    list.move_selection(1);
    assert_eq!(list.selected_index(), Some(0));
    list.move_selection(1);
    assert_eq!(list.selected_index(), Some(0));
    let mut headings = TrackList::new(vec![s("A"), s("B")]);
    headings.move_selection(1);
    assert_eq!(headings.selected_index(), None);
}

#[test]
fn select_by_title_and_tracks() {
    let mut list = sample();
    list.select("Test track 1");
    assert_eq!(list.selected().map(|t| t.id), Some(1));
    list.select("missing");
    assert_eq!(list.selected_index(), None);
    let ids: Vec<u64> = list.tracks().iter().map(|t| t.id).collect();
    assert_eq!(ids, vec![0, 1, 2]);
    assert!(!list.items()[0].selectable());
    assert!(list.items()[1].selectable());
    let mut empty = TrackList::default();
    empty.move_selection(1);
    assert_eq!(empty.selected_index(), None);
}
