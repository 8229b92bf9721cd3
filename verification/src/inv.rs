//! The inventory: an ordered sequence of slots with a hotbar prefix, and
//! the capacity-constrained stacking allocation over it.

use vstd::prelude::*;
use crate::item::InventoryItem;
use crate::slot::InventorySlot;

verus! {

/// Why an inventory operation declined. Every operation either fully
/// applies its effect or fully declines with one of these.
#[derive(Clone, Copy, Debug, PartialEq, Eq, Structural)]
pub enum InventoryError {
    /// A slot index lay outside the slot sequence.
    InvalidIndex,
    /// An expansion was requested to a size not above the current one.
    NotLarger,
}

/// Does the slot hold a stack of the given item type?
pub open spec fn slot_holds(s: InventorySlot, id: u32) -> bool {
    s.item matches Some(it) && it.id == id
}

/// How many items of the given type the slot contributes.
pub open spec fn slot_count(s: InventorySlot, id: u32) -> nat {
    if slot_holds(s, id) {
        s.quantity as nat
    } else {
        0
    }
}

/// Total quantity of one item type across a slot sequence.
pub open spec fn count_of(slots: Seq<InventorySlot>, id: u32) -> nat
    decreases slots.len(),
{
    if slots.len() == 0 {
        0
    } else {
        count_of(slots.drop_last(), id) + slot_count(slots.last(), id)
    }
}

/// The fill pass of the placement algorithm, from slot `i` on: top up
/// existing stacks of the same item type, in index order, never touching
/// empty slots. Yields the slot sequence and the quantity still unplaced.
pub open spec fn fill_from(
    slots: Seq<InventorySlot>,
    item: InventoryItem,
    q: nat,
    i: int,
) -> (Seq<InventorySlot>, nat)
    decreases slots.len() - i when 0 <= i
{
    if i >= slots.len() || q == 0 {
        (slots, q)
    } else {
        let s = slots[i];
        if slot_holds(s, item.id) && s.quantity < item.max_stack {
            let space = (item.max_stack - s.quantity) as nat;
            let add = if space <= q { space } else { q };
            let filled = InventorySlot { item: s.item, quantity: (s.quantity + add) as u32 };
            fill_from(slots.update(i, filled), item, (q - add) as nat, i + 1)
        } else {
            fill_from(slots, item, q, i + 1)
        }
    }
}

/// The allocation pass, from slot `i` on: place the remaining quantity into
/// empty slots, in index order, one full stack at most per slot.
pub open spec fn alloc_from(
    slots: Seq<InventorySlot>,
    item: InventoryItem,
    q: nat,
    i: int,
) -> (Seq<InventorySlot>, nat)
    decreases slots.len() - i when 0 <= i
{
    if i >= slots.len() || q == 0 {
        (slots, q)
    } else {
        let s = slots[i];
        if s.item is None {
            let add = if item.max_stack as nat <= q { item.max_stack as nat } else { q };
            let placed = InventorySlot { item: Some(item), quantity: add as u32 };
            alloc_from(slots.update(i, placed), item, (q - add) as nat, i + 1)
        } else {
            alloc_from(slots, item, q, i + 1)
        }
    }
}

/// What adding `q` of `item` does to a slot sequence: the fill pass over the
/// whole sequence, then the allocation pass over its result. Yields the new
/// sequence and the leftover quantity.
pub open spec fn spec_add(slots: Seq<InventorySlot>, item: InventoryItem, q: nat) -> (
    Seq<InventorySlot>,
    nat,
) {
    let (filled, rest) = fill_from(slots, item, q, 0);
    alloc_from(filled, item, rest, 0)
}

/// Every stack of `item`'s type already in the slots holds exactly `item`:
/// the catalog assigns one immutable definition per id, so two references
/// that agree on id agree on every field.
pub open spec fn catalog_consistent(slots: Seq<InventorySlot>, item: InventoryItem) -> bool {
    forall|j: int|
        0 <= j < slots.len() ==> match (#[trigger] slots[j]).item {
            Some(it) => it.id == item.id ==> it == item,
            None => true,
        }
}

/// Replacing one slot changes the total of each item type by the
/// difference between the new and the old slot's contribution.
proof fn lemma_count_update(slots: Seq<InventorySlot>, i: int, v: InventorySlot, id: u32)
    requires
        0 <= i < slots.len(),
    ensures
        count_of(slots.update(i, v), id) == count_of(slots, id) - slot_count(slots[i], id)
            + slot_count(v, id),
    decreases slots.len(),
{
    let s2 = slots.update(i, v);
    if i == slots.len() - 1 {
        assert(s2.drop_last() =~= slots.drop_last());
        assert(s2.last() == v);
    } else {
        assert(s2.drop_last() =~= slots.drop_last().update(i, v));
        assert(s2.last() == slots.last());
        lemma_count_update(slots.drop_last(), i, v, id);
    }
}

/// What the fill pass guarantees: it keeps the length, the slots before
/// `i`, each cell's invariant and the emptiness pattern; it places exactly
/// the difference between the requested and the leftover quantity, all of
/// it onto stacks of the requested item type.
proof fn lemma_fill_from(slots: Seq<InventorySlot>, item: InventoryItem, q: nat, i: int)
    requires
        0 <= i <= slots.len(),
        item.wf(),
        forall|j: int| 0 <= j < slots.len() ==> (#[trigger] slots[j]).wf(),
        catalog_consistent(slots, item),
    ensures
        ({
            let (s2, q2) = fill_from(slots, item, q, i);
            &&& s2.len() == slots.len()
            &&& q2 <= q
            &&& forall|j: int| 0 <= j < i ==> s2[j] == slots[j]
            &&& forall|j: int| 0 <= j < s2.len() ==> (#[trigger] s2[j]).wf()
            &&& forall|j: int|
                0 <= j < s2.len() ==> ((#[trigger] s2[j]).item is None <==> slots[j].item is None)
            &&& catalog_consistent(s2, item)
            &&& count_of(s2, item.id) == count_of(slots, item.id) + q - q2
            &&& forall|id: u32| id != item.id ==> count_of(s2, id) == count_of(slots, id)
        }),
    decreases slots.len() - i,
{
    if i >= slots.len() || q == 0 {
    } else {
        let s = slots[i];
        if slot_holds(s, item.id) && s.quantity < item.max_stack {
            let space = (item.max_stack - s.quantity) as nat;
            let add = if space <= q { space } else { q };
            let filled = InventorySlot { item: s.item, quantity: (s.quantity + add) as u32 };
            let slots2 = slots.update(i, filled);
            assert(s.item == Some(item));
            assert(filled.wf());
            assert(forall|j: int| 0 <= j < slots2.len() ==> (#[trigger] slots2[j]).wf());
            lemma_count_update(slots, i, filled, item.id);
            assert forall|id: u32| id != item.id implies count_of(slots2, id) == count_of(
                slots,
                id,
            ) by {
                lemma_count_update(slots, i, filled, id);
            }
            lemma_fill_from(slots2, item, (q - add) as nat, i + 1);
        } else {
            lemma_fill_from(slots, item, q, i + 1);
        }
    }
}

/// What the allocation pass guarantees: it keeps the length, the slots
/// before `i` and each cell's invariant; it places exactly the difference
/// between the requested and the leftover quantity, all of it into
/// previously empty slots as stacks of the requested item.
proof fn lemma_alloc_from(slots: Seq<InventorySlot>, item: InventoryItem, q: nat, i: int)
    requires
        0 <= i <= slots.len(),
        item.wf(),
        forall|j: int| 0 <= j < slots.len() ==> (#[trigger] slots[j]).wf(),
    ensures
        ({
            let (s2, q2) = alloc_from(slots, item, q, i);
            &&& s2.len() == slots.len()
            &&& q2 <= q
            &&& forall|j: int| 0 <= j < i ==> s2[j] == slots[j]
            &&& forall|j: int| 0 <= j < s2.len() ==> (#[trigger] s2[j]).wf()
            &&& catalog_consistent(slots, item) ==> catalog_consistent(s2, item)
            &&& count_of(s2, item.id) == count_of(slots, item.id) + q - q2
            &&& forall|id: u32| id != item.id ==> count_of(s2, id) == count_of(slots, id)
        }),
    decreases slots.len() - i,
{
    if i >= slots.len() || q == 0 {
    } else {
        let s = slots[i];
        if s.item is None {
            let add = if item.max_stack as nat <= q { item.max_stack as nat } else { q };
            let placed = InventorySlot { item: Some(item), quantity: add as u32 };
            let slots2 = slots.update(i, placed);
            assert(placed.wf());
            assert(forall|j: int| 0 <= j < slots2.len() ==> (#[trigger] slots2[j]).wf());
            lemma_count_update(slots, i, placed, item.id);
            assert forall|id: u32| id != item.id implies count_of(slots2, id) == count_of(
                slots,
                id,
            ) by {
                lemma_count_update(slots, i, placed, id);
            }
            lemma_alloc_from(slots2, item, (q - add) as nat, i + 1);
        } else {
            lemma_alloc_from(slots, item, q, i + 1);
        }
    }
}

/// The fill pass places nothing where no slot holds the item's type.
proof fn lemma_fill_skips_all(slots: Seq<InventorySlot>, item: InventoryItem, q: nat, i: int)
    requires
        0 <= i,
        forall|j: int| 0 <= j < slots.len() ==> !slot_holds(#[trigger] slots[j], item.id),
    ensures
        fill_from(slots, item, q, i) == (slots, q),
    decreases slots.len() - i,
{
    if i >= slots.len() || q == 0 {
    } else {
        lemma_fill_skips_all(slots, item, q, i + 1);
    }
}

/// The allocation pass places nothing where no slot is empty.
proof fn lemma_alloc_skips_all(slots: Seq<InventorySlot>, item: InventoryItem, q: nat, i: int)
    requires
        0 <= i,
        forall|j: int| 0 <= j < slots.len() ==> (#[trigger] slots[j]).item is Some,
    ensures
        alloc_from(slots, item, q, i) == (slots, q),
    decreases slots.len() - i,
{
    if i >= slots.len() || q == 0 {
    } else {
        lemma_alloc_skips_all(slots, item, q, i + 1);
    }
}

/// Exhaustion: when every slot is occupied by a non-matching item type,
/// placement places nothing — the whole requested quantity is left over
/// and every slot stays exactly as it was. `Inventory::add_item` on such
/// an inventory therefore returns the full quantity as its error.
pub proof fn lemma_add_to_exhausted(slots: Seq<InventorySlot>, item: InventoryItem, q: nat)
    requires
        forall|j: int|
            0 <= j < slots.len() ==> (#[trigger] slots[j]).item is Some && !slot_holds(
                slots[j],
                item.id,
            ),
    ensures
        spec_add(slots, item, q) == (slots, q),
{
    lemma_fill_skips_all(slots, item, q, 0);
    lemma_alloc_skips_all(slots, item, q, 0);
}

/// Ordered collection of slots. Indices `[0, hotbar_size)` are the hotbar,
/// the rest is general storage; placement treats the whole sequence as one,
/// so hotbar slots are filled and searched first.
pub struct Inventory {
    pub size: u32,
    pub hotbar_size: u32,
    pub slots: Vec<InventorySlot>,
}

impl Inventory {
    /// The inventory invariant: the slot count is exactly the declared
    /// capacity, and every slot satisfies the cell invariant.
    pub open spec fn wf(self) -> bool {
        &&& self.slots@.len() == self.size as int + self.hotbar_size as int
        &&& forall|i: int| 0 <= i < self.slots@.len() ==> #[trigger] self.slots@[i].wf()
    }

    /// Creates an inventory of `size` general slots and `hotbar_size` hotbar
    /// slots, all empty.
    pub fn new(size: u32, hotbar_size: u32) -> (inv: Inventory)
        requires
            size as int + hotbar_size as int <= usize::MAX as int,
        ensures
            inv.wf(),
            inv.size == size,
            inv.hotbar_size == hotbar_size,
            forall|i: int|
                0 <= i < inv.slots@.len() ==> #[trigger] inv.slots@[i]
                    == InventorySlot::spec_empty(),
    {
        let total: usize = size as usize + hotbar_size as usize;
        let mut slots: Vec<InventorySlot> = Vec::new();
        while slots.len() < total
            invariant
                slots@.len() <= total as int,
                forall|i: int|
                    0 <= i < slots@.len() ==> #[trigger] slots@[i] == InventorySlot::spec_empty(),
            decreases total - slots.len(),
        {
            slots.push(InventorySlot::empty());
        }
        Inventory { size, hotbar_size, slots }
    }

    /// Grows the general capacity to `new_size`, appending empty slots;
    /// declines with `NotLarger` when `new_size` does not exceed the current
    /// size. Capacity is monotonically non-decreasing: shrinking is
    /// unsupported.
    pub fn expand(&mut self, new_size: u32) -> (r: Result<(), InventoryError>)
        requires
            old(self).wf(),
            new_size > old(self).size ==> new_size as int + old(self).hotbar_size as int
                <= usize::MAX as int,
        ensures
            final(self).wf(),
            new_size <= old(self).size ==> r == Err::<(), InventoryError>(
                InventoryError::NotLarger,
            ) && *final(self) == *old(self),
            new_size > old(self).size ==> {
                &&& r == Ok::<(), InventoryError>(())
                &&& final(self).size == new_size
                &&& final(self).hotbar_size == old(self).hotbar_size
                &&& final(self).slots@.len() == new_size as int + old(self).hotbar_size as int
                &&& final(self).slots@.subrange(0, old(self).slots@.len() as int) == old(
                    self,
                ).slots@
                &&& forall|i: int|
                    old(self).slots@.len() <= i < final(self).slots@.len()
                        ==> #[trigger] final(self).slots@[i] == InventorySlot::spec_empty()
            },
    {
        if new_size <= self.size {
            return Err(InventoryError::NotLarger);
        }
        self.size = new_size;
        let total: usize = self.hotbar_size as usize + new_size as usize;
        while self.slots.len() < total
            invariant
                old(self).wf(),
                self.size == new_size,
                self.hotbar_size == old(self).hotbar_size,
                total == new_size as int + old(self).hotbar_size as int,
                old(self).slots@.len() <= self.slots@.len() <= total as int,
                self.slots@.subrange(0, old(self).slots@.len() as int) == old(self).slots@,
                forall|i: int|
                    old(self).slots@.len() <= i < self.slots@.len()
                        ==> #[trigger] self.slots@[i] == InventorySlot::spec_empty(),
            decreases total - self.slots.len(),
        {
            self.slots.push(InventorySlot::empty());
        }
        proof {
            let n = old(self).slots@.len() as int;
            assert forall|i: int| 0 <= i < self.slots@.len() implies #[trigger] self.slots@[i].wf()
            by {
                if i < n {
                    assert(self.slots@.subrange(0, n)[i] == old(self).slots@[i]);
                    assert(old(self).slots@[i].wf());
                }
            }
        }
        Ok(())
    }

    /// Empties the addressed slot in place — a full clear, not a
    /// quantity-aware decrement — or declines with `InvalidIndex` when the
    /// index is out of bounds.
    pub fn remove_from_slot(&mut self, slot: u32) -> (r: Result<(), InventoryError>)
        requires
            old(self).wf(),
        ensures
            final(self).wf(),
            (slot as int) < old(self).slots@.len() ==> {
                &&& r == Ok::<(), InventoryError>(())
                &&& final(self).slots@ == old(self).slots@.update(
                    slot as int,
                    InventorySlot::spec_empty(),
                )
                &&& final(self).size == old(self).size
                &&& final(self).hotbar_size == old(self).hotbar_size
            },
            (slot as int) >= old(self).slots@.len() ==> r == Err::<(), InventoryError>(
                InventoryError::InvalidIndex,
            ) && *final(self) == *old(self),
    {
        let idx = slot as usize;
        if idx >= self.slots.len() {
            return Err(InventoryError::InvalidIndex);
        }
        self.slots[idx] = InventorySlot::empty();
        Ok(())
    }

    /// Adds `quantity` items of one type by the two-pass greedy placement:
    /// a fill pass topping up existing stacks of the same type in index
    /// order, then an allocation pass placing the rest into empty slots in
    /// index order. Returns `Ok` exactly when everything was placed, and
    /// otherwise `Err` with the unplaced remainder; what could be placed
    /// has been. The total of the added item type grows by exactly the
    /// placed amount and no other item type's total changes.
    pub fn add_item(&mut self, item: &InventoryItem, quantity: u32) -> (r: Result<(), u32>)
        requires
            old(self).wf(),
            item.wf(),
            quantity > 0,
            catalog_consistent(old(self).slots@, *item),
        ensures
            final(self).wf(),
            final(self).size == old(self).size,
            final(self).hotbar_size == old(self).hotbar_size,
            catalog_consistent(final(self).slots@, *item),
            ({
                let (placed, leftover) = spec_add(old(self).slots@, *item, quantity as nat);
                &&& final(self).slots@ == placed
                &&& leftover <= quantity
                &&& (leftover == 0 ==> r == Ok::<(), u32>(()))
                &&& (leftover > 0 ==> r == Err::<(), u32>(leftover as u32))
                &&& count_of(final(self).slots@, item.id) == count_of(old(self).slots@, item.id)
                    + quantity - leftover
                &&& forall|id: u32|
                    id != item.id ==> count_of(final(self).slots@, id) == count_of(
                        old(self).slots@,
                        id,
                    )
            }),
    {
        let max_stack = item.max_stack;
        let id = item.id;
        let mut qty = quantity;
        let ghost s0 = self.slots@;
        let ghost q0 = quantity as nat;

        let mut i: usize = 0;
        while i < self.slots.len() && qty > 0
            invariant
                i <= self.slots@.len(),
                self.slots@.len() == s0.len(),
                self.size == old(self).size,
                self.hotbar_size == old(self).hotbar_size,
                max_stack == item.max_stack,
                id == item.id,
                fill_from(s0, *item, q0, 0) == fill_from(self.slots@, *item, qty as nat, i as int),
            decreases self.slots@.len() - i,
        {
            let ghost pre = self.slots@;
            let ghost pre_q = qty as nat;
            let s = self.slots[i];
            if let Some(it) = s.item {
                if it.id == id && s.quantity < max_stack {
                    let space = max_stack - s.quantity;
                    let to_add = if space < qty {
                        space
                    } else {
                        qty
                    };
                    self.slots[i] = InventorySlot { item: s.item, quantity: s.quantity + to_add };
                    qty = qty - to_add;
                    proof {
                        assert(fill_from(pre, *item, pre_q, i as int) == fill_from(
                            self.slots@,
                            *item,
                            qty as nat,
                            i as int + 1,
                        ));
                    }
                }
            }
            i = i + 1;
        }
        proof {
            assert(fill_from(self.slots@, *item, qty as nat, i as int) == (
                self.slots@,
                qty as nat,
            ));
            lemma_fill_from(s0, *item, q0, 0);
        }

        let ghost s1 = self.slots@;
        let ghost q1 = qty as nat;
        let mut i: usize = 0;
        while i < self.slots.len() && qty > 0
            invariant
                i <= self.slots@.len(),
                self.slots@.len() == s1.len(),
                self.size == old(self).size,
                self.hotbar_size == old(self).hotbar_size,
                max_stack == item.max_stack,
                alloc_from(s1, *item, q1, 0) == alloc_from(self.slots@, *item, qty as nat, i as int),
            decreases self.slots@.len() - i,
        {
            let ghost pre = self.slots@;
            let ghost pre_q = qty as nat;
            let s = self.slots[i];
            if s.item.is_none() {
                let to_add = if max_stack < qty {
                    max_stack
                } else {
                    qty
                };
                self.slots[i] = InventorySlot { item: Some(*item), quantity: to_add };
                qty = qty - to_add;
                proof {
                    assert(alloc_from(pre, *item, pre_q, i as int) == alloc_from(
                        self.slots@,
                        *item,
                        qty as nat,
                        i as int + 1,
                    ));
                }
            }
            i = i + 1;
        }
        proof {
            assert(alloc_from(self.slots@, *item, qty as nat, i as int) == (
                self.slots@,
                qty as nat,
            ));
            lemma_alloc_from(s1, *item, q1, 0);
        }

        if qty == 0 {
            Ok(())
        } else {
            Err(qty)
        }
    }

    /// Exchanges the contents of two addressed slots — a raw swap, never a
    /// merge, even when both hold the same item type — or declines with
    /// `InvalidIndex`, mutating nothing, when either index is out of bounds.
    pub fn move_item(&mut self, from: u32, to: u32) -> (r: Result<(), InventoryError>)
        requires
            old(self).wf(),
        ensures
            final(self).wf(),
            (from as int) < old(self).slots@.len() && (to as int) < old(self).slots@.len() ==> {
                &&& r == Ok::<(), InventoryError>(())
                &&& final(self).slots@ == old(self).slots@.update(
                    from as int,
                    old(self).slots@[to as int],
                ).update(to as int, old(self).slots@[from as int])
                &&& final(self).size == old(self).size
                &&& final(self).hotbar_size == old(self).hotbar_size
            },
            (from as int) >= old(self).slots@.len() || (to as int) >= old(self).slots@.len() ==> r
                == Err::<(), InventoryError>(InventoryError::InvalidIndex) && *final(self) == *old(
                self,
            ),
    {
        let from_idx = from as usize;
        let to_idx = to as usize;
        if from_idx >= self.slots.len() || to_idx >= self.slots.len() {
            return Err(InventoryError::InvalidIndex);
        }
        let from_slot = self.slots[from_idx];
        let to_slot = self.slots[to_idx];
        self.slots[from_idx] = to_slot;
        self.slots[to_idx] = from_slot;
        Ok(())
    }
}

} // verus!
