use inventory_core::inv::{Inventory, InventoryError};
use inventory_core::item::InventoryItem;
use inventory_core::slot::InventorySlot;

fn item(id: u32, max_stack: u32) -> InventoryItem {
    InventoryItem { id, max_stack, equippable: false, icon: None, equip_scene: None }
}

fn total_of(inv: &Inventory, id: u32) -> u64 {
    let mut total: u64 = 0;
    for s in inv.slots.iter() {
        if let Some(it) = s.item {
            if it.id == id {
                total += s.quantity as u64;
            }
        }
    }
    total
}

#[test]
fn new_creates_empty_slots() {
    let inv = Inventory::new(25, 3);
    assert_eq!(inv.size, 25);
    assert_eq!(inv.hotbar_size, 3);
    assert_eq!(inv.slots.len(), 28);
    for s in inv.slots.iter() {
        assert!(s.item.is_none());
        assert_eq!(s.quantity, 0);
    }
}

#[test]
fn add_places_into_hotbar_first() {
    let mut inv = Inventory::new(2, 2);
    let a = item(1, 10);
    assert_eq!(inv.add_item(&a, 4), Ok(()));
    assert_eq!(inv.slots[0], InventorySlot { item: Some(a), quantity: 4 });
    for s in inv.slots.iter().skip(1) {
        assert!(s.item.is_none());
    }
}

#[test]
fn fill_before_allocate() {
    // One slot already holds (a, 3) with max_stack 5; adding 4 more tops
    // that slot up to 5 and puts 2 into the next slot in scan order.
    let mut inv = Inventory::new(3, 1);
    let a = item(1, 5);
    assert_eq!(inv.add_item(&a, 3), Ok(()));
    assert_eq!(inv.slots[0], InventorySlot { item: Some(a), quantity: 3 });

    assert_eq!(inv.add_item(&a, 4), Ok(()));
    assert_eq!(inv.slots[0], InventorySlot { item: Some(a), quantity: 5 });
    assert_eq!(inv.slots[1], InventorySlot { item: Some(a), quantity: 2 });
    for s in inv.slots.iter().skip(2) {
        assert!(s.item.is_none());
    }
}

#[test]
fn add_spreads_over_full_stacks() {
    let mut inv = Inventory::new(2, 1);
    let a = item(1, 5);
    assert_eq!(inv.add_item(&a, 12), Ok(()));
    assert_eq!(inv.slots[0].quantity, 5);
    assert_eq!(inv.slots[1].quantity, 5);
    assert_eq!(inv.slots[2].quantity, 2);
    assert_eq!(total_of(&inv, 1), 12);
}

#[test]
fn exhaustion_mutates_nothing() {
    // All slots full of a non-matching item: adding one of another item
    // fails with the whole quantity left over and changes nothing.
    let mut inv = Inventory::new(1, 1);
    let b = item(2, 5);
    assert_eq!(inv.add_item(&b, 10), Ok(()));
    let before: Vec<InventorySlot> = inv.slots.clone();

    let x = item(9, 5);
    assert_eq!(inv.add_item(&x, 1), Err(1));
    assert_eq!(inv.slots, before);
}

#[test]
fn partial_fill_reports_leftover() {
    // Partial success is a first-class outcome: what could be placed has
    // been, and only the remainder is reported.
    let mut inv = Inventory::new(0, 1);
    let a = item(1, 5);
    assert_eq!(inv.add_item(&a, 7), Err(2));
    assert_eq!(inv.slots[0], InventorySlot { item: Some(a), quantity: 5 });
    assert_eq!(total_of(&inv, 1), 5);
}

#[test]
fn conservation_across_mixed_slots() {
    let mut inv = Inventory::new(3, 1);
    let a = item(1, 4);
    let b = item(2, 4);
    assert_eq!(inv.add_item(&a, 2), Ok(()));
    assert_eq!(inv.add_item(&b, 3), Ok(()));
    assert_eq!(inv.add_item(&a, 5), Ok(()));
    assert_eq!(total_of(&inv, 1), 7);
    assert_eq!(total_of(&inv, 2), 3);
}

#[test]
fn move_is_a_raw_swap() {
    let mut inv = Inventory::new(1, 1);
    let a = item(1, 5);
    let b = item(2, 5);
    assert_eq!(inv.add_item(&a, 2), Ok(()));
    assert_eq!(inv.add_item(&b, 1), Ok(()));
    assert_eq!(inv.move_item(0, 1), Ok(()));
    assert_eq!(inv.slots[0], InventorySlot { item: Some(b), quantity: 1 });
    assert_eq!(inv.slots[1], InventorySlot { item: Some(a), quantity: 2 });
}

#[test]
fn move_never_merges_same_item() {
    // Two stacks of the same item swap values; they are never summed.
    let mut inv = Inventory::new(1, 1);
    let a = item(1, 2);
    assert_eq!(inv.add_item(&a, 3), Ok(()));
    assert_eq!(inv.slots[0].quantity, 2);
    assert_eq!(inv.slots[1].quantity, 1);
    assert_eq!(inv.move_item(0, 1), Ok(()));
    assert_eq!(inv.slots[0], InventorySlot { item: Some(a), quantity: 1 });
    assert_eq!(inv.slots[1], InventorySlot { item: Some(a), quantity: 2 });
}

#[test]
fn move_out_of_bounds_mutates_nothing() {
    let mut inv = Inventory::new(1, 1);
    let a = item(1, 5);
    assert_eq!(inv.add_item(&a, 2), Ok(()));
    let before: Vec<InventorySlot> = inv.slots.clone();
    assert_eq!(inv.move_item(0, 99), Err(InventoryError::InvalidIndex));
    assert_eq!(inv.move_item(99, 0), Err(InventoryError::InvalidIndex));
    assert_eq!(inv.slots, before);
}

#[test]
fn remove_clears_the_whole_slot() {
    let mut inv = Inventory::new(1, 1);
    let a = item(1, 5);
    assert_eq!(inv.add_item(&a, 4), Ok(()));
    assert_eq!(inv.remove_from_slot(0), Ok(()));
    assert!(inv.slots[0].item.is_none());
    assert_eq!(inv.slots[0].quantity, 0);
}

#[test]
fn remove_out_of_bounds_fails() {
    let mut inv = Inventory::new(1, 1);
    assert_eq!(inv.remove_from_slot(2), Err(InventoryError::InvalidIndex));
    assert_eq!(inv.slots.len(), 2);
}

#[test]
fn expand_monotonicity() {
    let mut inv = Inventory::new(2, 1);
    assert_eq!(inv.expand(2), Err(InventoryError::NotLarger));
    assert_eq!(inv.slots.len(), 3);
    assert_eq!(inv.expand(1), Err(InventoryError::NotLarger));
    assert_eq!(inv.slots.len(), 3);

    let a = item(1, 5);
    assert_eq!(inv.add_item(&a, 2), Ok(()));
    assert_eq!(inv.expand(5), Ok(()));
    assert_eq!(inv.size, 5);
    assert_eq!(inv.hotbar_size, 1);
    assert_eq!(inv.slots.len(), 6);
    assert_eq!(inv.slots[0].quantity, 2);
    for s in inv.slots.iter().skip(3) {
        assert!(s.item.is_none());
        assert_eq!(s.quantity, 0);
    }
}

#[test]
fn slot_clear_and_swap() {
    let a = item(1, 5);
    let mut s1 = InventorySlot { item: Some(a), quantity: 3 };
    let mut s2 = InventorySlot::empty();
    s1.swap_with(&mut s2);
    assert_eq!(s1, InventorySlot::empty());
    assert_eq!(s2, InventorySlot { item: Some(a), quantity: 3 });
    s2.clear();
    assert_eq!(s2, InventorySlot::empty());
}
