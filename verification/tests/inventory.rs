//! Inventory accounting and cyclic navigation.

use minecraft_2d::{Inventory, Item};

#[test]
fn counts_start_at_zero() {
    let inv = Inventory::new();
    assert_eq!(inv.count_of(&Item::Wall), 0);
    assert_eq!(inv.count_of(&Item::Wood), 0);
    assert_eq!(inv.first(), None);
}

#[test]
fn insert_increments_counts() {
    let mut inv = Inventory::new();
    inv.insert(Item::Wall);
    assert_eq!(inv.count_of(&Item::Wall), 1);
    inv.insert(Item::Wall);
    assert_eq!(inv.count_of(&Item::Wall), 2);
    assert_eq!(inv.count_of(&Item::Wood), 0);
    inv.insert(Item::Wood);
    assert_eq!(inv.count_of(&Item::Wood), 1);
    assert_eq!(inv.count_of(&Item::Wall), 2);
}

#[test]
fn remove_decrements_and_deletes_at_zero() {
    let mut inv = Inventory::new();
    inv.insert(Item::Wall);
    inv.insert(Item::Wall);
    assert!(inv.remove(&Item::Wall).is_ok());
    assert_eq!(inv.count_of(&Item::Wall), 1);
    assert!(inv.remove(&Item::Wall).is_ok());
    assert_eq!(inv.count_of(&Item::Wall), 0);
    assert_eq!(inv.first(), None);
}

#[test]
fn remove_on_zero_count_fails_without_mutating() {
    let mut inv = Inventory::new();
    assert!(inv.remove(&Item::Wall).is_err());
    assert_eq!(inv.count_of(&Item::Wall), 0);
    inv.insert(Item::Wood);
    assert!(inv.remove(&Item::Wall).is_err());
    assert_eq!(inv.count_of(&Item::Wood), 1);
    assert_eq!(inv.count_of(&Item::Wall), 0);
    let entries = inv.iter();
    assert_eq!(entries, vec![(Item::Wood, 1)]);
}

#[test]
fn first_follows_insertion_order() {
    let mut inv = Inventory::new();
    inv.insert(Item::Wood);
    inv.insert(Item::Wall);
    assert_eq!(inv.first(), Some(Item::Wood));
}

#[test]
fn cyclic_navigation_wraps() {
    let mut inv = Inventory::new();
    inv.insert(Item::Wall);
    inv.insert(Item::Wood);
    assert_eq!(inv.next(&Item::Wall), Item::Wood);
    assert_eq!(inv.next(&Item::Wood), Item::Wall);
    assert_eq!(inv.prev(&Item::Wall), Item::Wood);
    assert_eq!(inv.prev(&Item::Wood), Item::Wall);
}

#[test]
fn single_entry_navigation_is_a_fixed_point() {
    let mut inv = Inventory::new();
    inv.insert(Item::Wood);
    assert_eq!(inv.next(&Item::Wood), Item::Wood);
    assert_eq!(inv.prev(&Item::Wood), Item::Wood);
}

#[test]
fn iter_lists_entries_in_order() {
    let mut inv = Inventory::new();
    inv.insert(Item::Wood);
    inv.insert(Item::Wall);
    inv.insert(Item::Wood);
    assert_eq!(inv.iter(), vec![(Item::Wood, 2), (Item::Wall, 1)]);
}

#[test]
fn from_entries_drops_zeros_and_duplicates() {
    let entries = vec![(Item::Wall, 3), (Item::Wood, 0), (Item::Wall, 9)];
    let inv = Inventory::from_entries(&entries);
    assert_eq!(inv.count_of(&Item::Wall), 3);
    assert_eq!(inv.count_of(&Item::Wood), 0);
    assert_eq!(inv.iter(), vec![(Item::Wall, 3)]);
}
