use inventory_core::inv::Inventory;
use inventory_core::item::InventoryItem;
use inventory_core::pickup::{pick_item, PickOutcome, Pickup, PickupQueue};

fn item(id: u32, max_stack: u32) -> InventoryItem {
    InventoryItem { id, max_stack, equippable: false, icon: None, equip_scene: None }
}

fn pickup(id: u64, it: InventoryItem, quantity: u32) -> Pickup {
    Pickup { id, item: it, quantity }
}

#[test]
fn enter_makes_the_newcomer_front() {
    let mut q = PickupQueue::new();
    let it = item(1, 5);
    assert_eq!(q.on_enter(pickup(101, it, 1)), None);
    assert_eq!(q.on_enter(pickup(102, it, 1)), Some(101));
    assert_eq!(q.on_enter(pickup(103, it, 1)), Some(102));
    assert_eq!(q.front().unwrap().id, 103);
}

#[test]
fn exit_removes_by_identity_anywhere() {
    // Entering 101, 102, 103 makes 103 the front; exiting the middle
    // entry leaves the order [103, 101].
    let mut q = PickupQueue::new();
    let it = item(1, 5);
    q.on_enter(pickup(101, it, 1));
    q.on_enter(pickup(102, it, 1));
    q.on_enter(pickup(103, it, 1));
    q.on_exit(102);
    assert_eq!(q.entries.len(), 2);
    assert_eq!(q.entries[0].id, 103);
    assert_eq!(q.entries[1].id, 101);
}

#[test]
fn exit_of_unknown_id_changes_nothing() {
    let mut q = PickupQueue::new();
    let it = item(1, 5);
    q.on_enter(pickup(101, it, 1));
    q.on_exit(999);
    assert_eq!(q.entries.len(), 1);
    assert_eq!(q.entries[0].id, 101);
}

#[test]
fn pick_on_empty_queue_is_a_no_op() {
    let mut q = PickupQueue::new();
    let mut inv = Inventory::new(2, 1);
    assert_eq!(pick_item(&mut q, &mut inv), PickOutcome::EmptyQueue);
    assert_eq!(q.entries.len(), 0);
}

#[test]
fn pick_attempts_only_the_front() {
    // After entering three pickups and exiting the middle one, a pickup
    // input works against the front (103) alone; with no room at all the
    // front keeps its whole quantity and 101 is untouched.
    let mut q = PickupQueue::new();
    let a = item(1, 5);
    q.on_enter(pickup(101, a, 2));
    q.on_enter(pickup(102, a, 2));
    q.on_enter(pickup(103, a, 3));
    q.on_exit(102);

    let mut inv = Inventory::new(0, 0);
    assert_eq!(pick_item(&mut q, &mut inv), PickOutcome::Partial { id: 103, remaining: 3 });
    assert_eq!(q.entries.len(), 2);
    assert_eq!(q.entries[0].id, 103);
    assert_eq!(q.entries[0].quantity, 3);
    assert_eq!(q.entries[1].id, 101);
    assert_eq!(q.entries[1].quantity, 2);
}

#[test]
fn full_pickup_pops_the_front() {
    let mut q = PickupQueue::new();
    let a = item(1, 5);
    q.on_enter(pickup(101, a, 2));
    q.on_enter(pickup(103, a, 3));

    let mut inv = Inventory::new(2, 1);
    assert_eq!(pick_item(&mut q, &mut inv), PickOutcome::Collected { id: 103 });
    assert_eq!(q.entries.len(), 1);
    assert_eq!(q.entries[0].id, 101);
    assert_eq!(inv.slots[0].quantity, 3);
    assert_eq!(q.front().unwrap().id, 101);
}

#[test]
fn partial_pickup_rewrites_quantity_then_completes() {
    // A pickup too large for the space keeps its remainder available for
    // a later attempt; after room is freed the rest is collected.
    let mut q = PickupQueue::new();
    let a = item(1, 5);
    q.on_enter(pickup(200, a, 7));

    let mut inv = Inventory::new(0, 1);
    assert_eq!(pick_item(&mut q, &mut inv), PickOutcome::Partial { id: 200, remaining: 2 });
    assert_eq!(inv.slots[0].quantity, 5);
    assert_eq!(q.entries[0].quantity, 2);

    assert_eq!(inv.remove_from_slot(0), Ok(()));
    assert_eq!(pick_item(&mut q, &mut inv), PickOutcome::Collected { id: 200 });
    assert_eq!(q.entries.len(), 0);
    assert_eq!(inv.slots[0].quantity, 2);
}
