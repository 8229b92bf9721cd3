//! A single storage cell of the inventory.

use vstd::prelude::*;
use crate::item::InventoryItem;

verus! {

/// One storage cell: an optional item reference together with how many of
/// that item the cell holds.
#[derive(Clone, Copy, Debug, PartialEq, Eq)]
pub struct InventorySlot {
    pub item: Option<InventoryItem>,
    pub quantity: u32,
}

impl InventorySlot {
    /// The cell invariant: a cell is empty exactly when its quantity is zero,
    /// and an occupied cell never holds more than one full stack.
    pub open spec fn wf(self) -> bool {
        &&& self.item is None <==> self.quantity == 0
        &&& self.item matches Some(it) ==> it.wf() && self.quantity <= it.max_stack
    }

    /// The empty cell.
    pub open spec fn spec_empty() -> InventorySlot {
        InventorySlot { item: None, quantity: 0 }
    }

    /// Creates an empty cell.
    pub fn empty() -> (s: InventorySlot)
        ensures
            s == Self::spec_empty(),
    {
        InventorySlot { item: None, quantity: 0 }
    }

    /// Unconditionally empties the cell; no error is possible.
    pub fn clear(&mut self)
        ensures
            *final(self) == Self::spec_empty(),
    {
        self.item = None;
        self.quantity = 0;
    }

    /// Exchanges the (item, quantity) pairs of two cells, both fields
    /// together. No capacity check is made: this is a raw storage exchange,
    /// not a stacking operation; the caller keeps the stacking rules.
    pub fn swap_with(&mut self, other: &mut InventorySlot)
        ensures
            *final(self) == *old(other),
            *final(other) == *old(self),
    {
        core::mem::swap(self, other);
    }
}

} // verus!
