use layuit::children::{ChildSet, OwnedChildSet};
use layuit::index::{NodeIndex, OwnedIndex};
use layuit::{Alignment, Anchor, LayoutConfig};

fn idx(slot: u64, generation: u64) -> NodeIndex {
    NodeIndex::from_bits((generation << 32) | slot).unwrap()
}

#[test]
fn defaults_match_documentation() {
    assert_eq!(Alignment::default(), Alignment::Full);
    assert_eq!(Anchor::default(), Anchor::Center);
    let config = LayoutConfig::default();
    assert!(!config.align_root);
    assert!(!config.force_good);
}

#[test]
fn index_bits_need_a_nonzero_generation() {
    assert!(NodeIndex::from_bits(0).is_none());
    assert!(NodeIndex::from_bits(0xFFFF_FFFF).is_none());
    let i = NodeIndex::from_bits(0x0000_0003_0000_0007).unwrap();
    assert_eq!(i.slot(), 7);
    assert_eq!(i.generation(), 3);
    assert_eq!(i.to_bits(), 0x0000_0003_0000_0007);
}

#[test]
fn index_converts_to_and_from_arena_index() {
    let mut arena = thunderdome::Arena::new();
    let a = arena.insert(1u8);
    let b = arena.insert(2u8);
    let na = NodeIndex::from_index(a);
    let nb = NodeIndex::from_index(b);
    assert_ne!(na, nb);
    assert_eq!(na.to_bits(), a.to_bits());
    assert_eq!(na.slot(), a.slot());
    assert_eq!(na.generation(), a.generation());
    assert_eq!(na.into_index(), a);
    assert_eq!(nb.into_index(), b);
    assert_eq!(NodeIndex::from(a), na);
    let back: thunderdome::Index = nb.into();
    assert_eq!(back, b);
}

#[test]
fn owned_index_shares_its_index() {
    let i = idx(4, 2);
    let owned = OwnedIndex::from_added(i);
    assert_eq!(owned.shareable(), i);
    assert_eq!(NodeIndex::from(&owned), i);
    let borrowed: &NodeIndex = std::borrow::Borrow::borrow(&owned);
    assert_eq!(*borrowed, i);
    assert_eq!(NodeIndex::from(owned), i);
}

#[test]
fn child_set_keeps_insertion_order_without_duplicates() {
    let (a, b, c) = (idx(0, 1), idx(1, 1), idx(2, 1));
    let mut set = ChildSet::new();
    assert!(set.is_empty());
    assert!(set.insert(a));
    assert!(set.insert(b));
    assert!(!set.insert(a));
    assert!(set.insert(c));
    assert_eq!(set.len(), 3);
    assert_eq!(set.to_vec(), vec![a, b, c]);
    assert_eq!(set.get(1), Some(b));
    assert_eq!(set.get(3), None);
    assert_eq!(set.index_of(c), Some(2));
    assert_eq!(set.index_of(idx(9, 9)), None);
}

#[test]
fn child_set_remove_shifts_later_children() {
    let (a, b, c) = (idx(0, 1), idx(1, 1), idx(2, 1));
    let mut set = ChildSet::new();
    set.insert(a);
    set.insert(b);
    set.insert(c);
    assert_eq!(set.remove_at(5), None);
    assert_eq!(set.len(), 3);
    assert_eq!(set.remove_at(0), Some(a));
    assert_eq!(set.to_vec(), vec![b, c]);
    assert_eq!(set.index_of(c), Some(1));
}

#[test]
fn child_set_move_shifts_children_in_between() {
    let (a, b, c, d) = (idx(0, 1), idx(1, 1), idx(2, 1), idx(3, 1));
    let mut set = ChildSet::new();
    for i in [a, b, c, d] {
        set.insert(i);
    }
    assert!(set.move_index(0, 2));
    assert_eq!(set.to_vec(), vec![b, c, a, d]);
    assert!(!set.move_index(4, 0));
    assert!(!set.move_index(0, 4));
    assert_eq!(set.to_vec(), vec![b, c, a, d]);
    assert!(set.move_index(3, 0));
    assert_eq!(set.to_vec(), vec![d, b, c, a]);
    assert_eq!(set.get(0), Some(d));
}

#[test]
fn owned_child_set_hands_ownership_back() {
    let (a, b) = (idx(0, 1), idx(1, 1));
    let mut set = OwnedChildSet::new();
    assert!(set.is_empty());
    assert!(set.insert(OwnedIndex::from_added(a)));
    assert!(set.insert(OwnedIndex::from_added(b)));
    assert!(!set.insert(OwnedIndex::from_added(a)));
    assert_eq!(set.len(), 2);
    assert!(set.move_index(1, 0));
    assert_eq!(set.to_vec(), vec![b, a]);
    assert!(!set.move_index(2, 0));
    let taken = set.detach_at(1).unwrap();
    assert_eq!(taken.shareable(), a);
    assert!(set.detach_at(1).is_none());
    assert_eq!(set.get(0), Some(b));
}
