use layuit::grid::{ColumnCount, Grid, HEqual, VEqual};
use layuit::index::{NodeIndex, OwnedIndex};
use layuit::overlap::Overlap;
use layuit::slots::{ChildPair, ChildSlot, ChildTriple};
use layuit::visibility::{Hider, Selector};
use layuit::Alignment;

fn idx(slot: u64) -> NodeIndex {
    NodeIndex::from_bits((1u64 << 32) | slot).unwrap()
}

fn owned(slot: u64) -> OwnedIndex {
    OwnedIndex::from_added(idx(slot))
}

#[test]
fn hider_hides_its_only_child() {
    let h = Hider::new();
    assert!(!h.hidden);
    assert_eq!(h.get_align(), (Alignment::Begin, Alignment::Begin));
    assert!(h.get_children().is_empty());
    let h = h.with_child(idx(1)).with_align((Alignment::End, Alignment::Center));
    assert_eq!(h.get_children(), vec![idx(1)]);
    assert_eq!(h.get_visible_children(), vec![idx(1)]);
    let mut h = h.with_hidden(true);
    assert_eq!(h.get_children(), vec![idx(1)]);
    assert!(h.get_visible_children().is_empty());
    h.hidden = false;
    assert_eq!(h.get_visible_children(), vec![idx(1)]);
    let (ax, ay) = h.get_align_mut();
    *ax = Alignment::Full;
    *ay = Alignment::Begin;
    assert_eq!(h.get_align(), (Alignment::Full, Alignment::Begin));
}

#[test]
fn selector_selects_first_child_and_clears_removed_selection() {
    let s = Selector::new().with_child(idx(1)).with_child(idx(2)).with_child(idx(3));
    assert_eq!(s.len(), 3);
    assert_eq!(s.get_selected(), Some(idx(1)));
    assert_eq!(s.get_selected_index(), Some(0));
    assert_eq!(s.get_visible_children(), vec![idx(1)]);
    assert_eq!(s.get_children(), vec![idx(1), idx(2), idx(3)]);
    let mut s = s;
    s.set_selected_index(2);
    assert_eq!(s.get_selected(), Some(idx(3)));
    assert_eq!(s.get_selected_index(), Some(2));
    let removed = s.detach_child(1).unwrap();
    assert_eq!(removed.shareable(), idx(2));
    assert_eq!(s.get_selected(), Some(idx(3)));
    assert_eq!(s.get_selected_index(), Some(1));
    let removed = s.detach_child(1).unwrap();
    assert_eq!(removed.shareable(), idx(3));
    assert_eq!(s.get_selected(), None);
    assert!(s.get_visible_children().is_empty());
    assert!(s.detach_child(4).is_none());
    s.set_selected_index(7);
    assert_eq!(s.get_selected(), None);
    s.set_selected(idx(9));
    assert_eq!(s.get_selected_index(), None);
    s.unselect();
    assert_eq!(s.get_selected(), None);
}

#[test]
fn selector_add_child_keeps_selection() {
    let mut s = Selector::default();
    s.add_child(idx(1));
    assert_eq!(s.get_selected(), None);
    let mut preselected = Selector::new();
    preselected.set_selected(idx(7));
    let preselected = preselected.with_child(idx(8));
    assert_eq!(preselected.get_selected(), Some(idx(8)));
    let kept = preselected.with_child(idx(9));
    assert_eq!(kept.get_selected(), Some(idx(8)));
    s.add_child(idx(2));
    assert!(s.set_child_position(1, 0));
    assert_eq!(s.get_child_index(0), Some(idx(2)));
    assert_eq!(s.get_child_index(2), None);
    assert!(!s.is_empty());
}

#[test]
fn equal_containers_manage_ordered_children() {
    let mut h = HEqual::new().with_child(owned(1)).with_child(owned(2));
    h.add_child(owned(3));
    h.add_child(owned(2));
    assert_eq!(h.len(), 3);
    assert_eq!(h.get_children(), vec![idx(1), idx(2), idx(3)]);
    assert!(h.set_child_position(2, 0));
    assert_eq!(h.get_children(), vec![idx(3), idx(1), idx(2)]);
    assert!(!h.set_child_position(3, 0));
    assert!(!h.set_child_position(0, 3));
    assert_eq!(h.get_children(), vec![idx(3), idx(1), idx(2)]);
    let removed = h.detach_child(1).unwrap();
    assert_eq!(removed.shareable(), idx(1));
    assert_eq!(h.get_child_index(1), Some(idx(2)));
    assert!(h.detach_child(2).is_none());

    let v = VEqual::default().with_align((Alignment::Center, Alignment::End));
    assert!(v.is_empty());
    assert_eq!(v.get_align(), (Alignment::Center, Alignment::End));
}

#[test]
fn overlap_defaults_to_full_alignment() {
    let o = Overlap::new().with_child(owned(5));
    assert_eq!(o.get_align(), (Alignment::Full, Alignment::Full));
    assert_eq!(o.get_child_index(0), Some(idx(5)));
}

#[test]
fn grid_rows_round_up() {
    assert!(ColumnCount::new(0).is_none());
    let cols = ColumnCount::new(3).unwrap();
    assert_eq!(cols.get(), 3);
    let mut g = Grid::new(cols);
    assert_eq!(g.num_rows(), 0);
    for i in 0..7 {
        g.add_child(owned(i));
    }
    assert_eq!(g.num_rows(), 3);
    g.detach_child(0);
    assert_eq!(g.num_rows(), 2);
    g.num_cols = ColumnCount::new(6).unwrap();
    assert_eq!(g.num_rows(), 1);
    assert_eq!(g.get_align(), (Alignment::Full, Alignment::Full));
}

#[test]
fn single_slot_binds_once() {
    let mut slot = ChildSlot::new();
    assert!(slot.get().is_none());
    assert!(slot.children().is_empty());
    slot.bind(idx(4));
    assert_eq!(slot.get(), Some(idx(4)));
    assert_eq!(slot.children(), vec![idx(4)]);
}

#[test]
fn pair_lists_children_only_when_both_are_bound() {
    let mut pair = ChildPair::new();
    pair.add_child(idx(1));
    assert!(pair.children().is_empty());
    assert_eq!(pair.first(), Some(idx(1)));
    pair.add_child(idx(2));
    assert_eq!(pair.children(), vec![idx(1), idx(2)]);
    assert_eq!(pair.second(), Some(idx(2)));
    let mut both = ChildPair::new();
    both.bind_both(idx(7), idx(8));
    assert_eq!(both.children(), vec![idx(7), idx(8)]);
}

#[test]
fn triple_lists_children_up_to_first_empty_slot() {
    let mut t = ChildTriple::new();
    assert!(t.children().is_empty());
    t.add_child(idx(1));
    assert_eq!(t.children(), vec![idx(1)]);
    t.add_child(idx(2));
    assert_eq!(t.children(), vec![idx(1), idx(2)]);
    t.add_child(idx(3));
    assert_eq!(t.children(), vec![idx(1), idx(2), idx(3)]);
    assert_eq!((t.first(), t.sep(), t.last()), (Some(idx(1)), Some(idx(2)), Some(idx(3))));
    let mut u = ChildTriple::new();
    u.bind_all(idx(6), idx(7), idx(8));
    assert_eq!(u.children(), vec![idx(6), idx(7), idx(8)]);
}

#[test]
fn columns_wrap_to_a_new_row_after_the_last() {
    let cols = ColumnCount::new(3).unwrap();
    assert_eq!(cols.next_column(0), (1, false));
    assert_eq!(cols.next_column(1), (2, false));
    assert_eq!(cols.next_column(2), (0, true));
    let one = ColumnCount::new(1).unwrap();
    assert_eq!(one.next_column(0), (0, true));
}
