//! The presentation projection of an inventory: a mirrored slot panel kept
//! in step by explicit diff-and-refresh, never by automatic binding.

use vstd::prelude::*;
use crate::inv::Inventory;
use crate::item::InventoryItem;
use crate::slot::InventorySlot;

verus! {

/// The displayed copy of one inventory slot.
#[derive(Clone, Copy, Debug, PartialEq, Eq)]
pub struct InventorySlotUI {
    pub item: Option<InventoryItem>,
    pub quantity: u32,
}

/// What the widget of one slot should draw now.
#[derive(Clone, Copy, Debug, PartialEq, Eq)]
pub struct SlotRender {
    pub show_icon: bool,
    pub icon: Option<u32>,
    pub label_count: Option<u32>,
}

impl InventorySlotUI {
    /// Does the display agree with the authoritative slot? Items are
    /// compared as whole definitions: the catalog keeps one immutable
    /// definition per id, so this is identity of the underlying entry.
    pub open spec fn displays(self, s: InventorySlot) -> bool {
        self.item == s.item && self.quantity == s.quantity
    }

    /// What to draw for this slot: the displayed item's icon only when an
    /// item is displayed, and a quantity label only for a displayed item
    /// above one — a slot displaying no item shows no label, whatever its
    /// quantity field holds.
    pub fn refresh(&self) -> (r: SlotRender)
        ensures
            r.show_icon == (self.item is Some),
            r.icon == (match self.item {
                Some(it) => it.icon,
                None => None,
            }),
            self.item is Some && self.quantity > 1 ==> r.label_count == Some(self.quantity),
            !(self.item is Some && self.quantity > 1) ==> r.label_count is None,
    {
        SlotRender {
            show_icon: self.item.is_some(),
            icon: match self.item {
                Some(it) => it.icon,
                None => None,
            },
            label_count: if self.item.is_some() && self.quantity > 1 {
                Some(self.quantity)
            } else {
                None
            },
        }
    }
}

/// Do two item references name the same catalog entry field for field?
fn item_eq(a: &Option<InventoryItem>, b: &Option<InventoryItem>) -> (r: bool)
    ensures
        r == (a == b),
{
    match (a, b) {
        (None, None) => true,
        (Some(x), Some(y)) => {
            let icon_eq = match (x.icon, y.icon) {
                (None, None) => true,
                (Some(p), Some(q)) => p == q,
                _ => false,
            };
            let scene_eq = match (x.equip_scene, y.equip_scene) {
                (None, None) => true,
                (Some(p), Some(q)) => p == q,
                _ => false,
            };
            x.id == y.id && x.max_stack == y.max_stack && x.equippable == y.equippable && icon_eq
                && scene_eq
        },
        _ => false,
    }
}

/// How many leading slots a refresh walks: displayed and authoritative
/// slots are compared index by index, as far as both sides reach.
pub open spec fn sync_len(u: Seq<InventorySlotUI>, s: Seq<InventorySlot>) -> int {
    if u.len() <= s.len() {
        u.len() as int
    } else {
        s.len() as int
    }
}

/// The indices, in increasing order, at which the display disagrees with
/// the authoritative slots — exactly the slots a refresh re-renders.
pub open spec fn dirty_from(u: Seq<InventorySlotUI>, s: Seq<InventorySlot>, i: int) -> Seq<usize>
    decreases sync_len(u, s) - i when 0 <= i
{
    if i >= sync_len(u, s) {
        Seq::empty()
    } else if u[i].displays(s[i]) {
        dirty_from(u, s, i + 1)
    } else {
        seq![i as usize] + dirty_from(u, s, i + 1)
    }
}

/// The slot panel: one displayed slot per inventory slot, plus one
/// visibility flag for the whole panel.
pub struct InventoryUI {
    pub slots: Vec<InventorySlotUI>,
    pub visible: bool,
}

impl InventoryUI {
    /// Builds the panel over an inventory, one displayed slot per
    /// authoritative slot, hidden until toggled.
    pub fn new(inv: &Inventory) -> (ui: InventoryUI)
        ensures
            ui.visible == false,
            ui.slots@.len() == inv.slots@.len(),
            forall|i: int|
                0 <= i < ui.slots@.len() ==> (#[trigger] ui.slots@[i]).displays(inv.slots@[i]),
    {
        let mut slots: Vec<InventorySlotUI> = Vec::new();
        let mut i: usize = 0;
        while i < inv.slots.len()
            invariant
                i <= inv.slots@.len(),
                slots@.len() == i,
                forall|j: int|
                    0 <= j < i ==> (#[trigger] slots@[j]).displays(inv.slots@[j]),
            decreases inv.slots@.len() - i,
        {
            let s = inv.slots[i];
            slots.push(InventorySlotUI { item: s.item, quantity: s.quantity });
            i = i + 1;
        }
        InventoryUI { slots, visible: false }
    }

    /// Pull-based diff sync: compares each displayed slot against the
    /// authoritative slot at the same index, updates only those that
    /// differ, and returns their indices in increasing order — the slots
    /// the presentation layer must re-render. Correct only immediately
    /// after the call.
    pub fn refresh(&mut self, inv: &Inventory) -> (dirty: Vec<usize>)
        ensures
            final(self).visible == old(self).visible,
            final(self).slots@.len() == old(self).slots@.len(),
            forall|i: int|
                0 <= i < sync_len(old(self).slots@, inv.slots@)
                    ==> (#[trigger] final(self).slots@[i]).displays(inv.slots@[i]),
            forall|i: int|
                sync_len(old(self).slots@, inv.slots@) <= i < final(self).slots@.len()
                    ==> #[trigger] final(self).slots@[i] == old(self).slots@[i],
            dirty@ == dirty_from(old(self).slots@, inv.slots@, 0),
    {
        let n = if self.slots.len() <= inv.slots.len() {
            self.slots.len()
        } else {
            inv.slots.len()
        };
        let mut dirty: Vec<usize> = Vec::new();
        let mut i: usize = 0;
        while i < n
            invariant
                n == sync_len(old(self).slots@, inv.slots@),
                i <= n,
                self.visible == old(self).visible,
                self.slots@.len() == old(self).slots@.len(),
                forall|j: int|
                    i <= j < self.slots@.len()
                        ==> #[trigger] self.slots@[j] == old(self).slots@[j],
                forall|j: int|
                    0 <= j < i ==> (#[trigger] self.slots@[j]).displays(inv.slots@[j]),
                dirty_from(old(self).slots@, inv.slots@, 0) == dirty@ + dirty_from(
                    old(self).slots@,
                    inv.slots@,
                    i as int,
                ),
            decreases n - i,
        {
            let ghost pre_dirty = dirty@;
            let s = inv.slots[i];
            if !item_eq(&self.slots[i].item, &s.item) || self.slots[i].quantity != s.quantity {
                self.slots[i] = InventorySlotUI { item: s.item, quantity: s.quantity };
                dirty.push(i);
                proof {
                    assert((pre_dirty + seq![i as usize]) + dirty_from(
                        old(self).slots@,
                        inv.slots@,
                        i as int + 1,
                    ) =~= pre_dirty + (seq![i as usize] + dirty_from(
                        old(self).slots@,
                        inv.slots@,
                        i as int + 1,
                    )));
                }
            }
            i = i + 1;
        }
        proof {
            assert(dirty@ + Seq::<usize>::empty() =~= dirty@);
        }
        dirty
    }

    /// Flips the panel's visibility flag; the displayed slots are
    /// untouched.
    pub fn toggle(&mut self)
        ensures
            final(self).visible == !old(self).visible,
            final(self).slots@ == old(self).slots@,
    {
        self.visible = !self.visible;
    }

    /// A click on a slot resolves to the equip-scene handle to
    /// instantiate: present exactly when the index is in bounds and the
    /// slot holds an equippable item that names one.
    pub fn slot_clicked(&self, inv: &Inventory, idx: u32) -> (r: Option<u32>)
        ensures
            r == spec_equip_choice(inv.slots@, idx as int),
    {
        if (idx as usize) >= inv.slots.len() {
            return None;
        }
        match inv.slots[idx as usize].item {
            Some(it) => {
                if it.equippable {
                    it.equip_scene
                } else {
                    None
                }
            },
            None => None,
        }
    }
}

/// The equip decision a click implies: the equip-scene handle of the
/// addressed slot's item, when the index is in bounds and the item is
/// equippable and names a scene.
pub open spec fn spec_equip_choice(slots: Seq<InventorySlot>, idx: int) -> Option<u32> {
    if 0 <= idx < slots.len() {
        match slots[idx].item {
            Some(it) => if it.equippable {
                it.equip_scene
            } else {
                None
            },
            None => None,
        }
    } else {
        None
    }
}

} // verus!
