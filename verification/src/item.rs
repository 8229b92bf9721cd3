//! Catalog entry for a stackable item type.

use vstd::prelude::*;

verus! {

/// Immutable catalog entry describing one item type.
///
/// Identity is the catalog id: the catalog assigns one id per distinct
/// item name, so id equality stands for name equality, the stacking
/// compatibility test used by the inventory. `icon` and `equip_scene` are
/// opaque handles: the texture the presentation layer draws for the item,
/// and the scene it instantiates when the item is equipped; the icon's
/// scale and offset hints stay with the presentation layer.
#[derive(Clone, Copy, Debug, PartialEq, Eq)]
pub struct InventoryItem {
    pub id: u32,
    pub max_stack: u32,
    pub equippable: bool,
    pub icon: Option<u32>,
    pub equip_scene: Option<u32>,
}

impl InventoryItem {
    /// A catalog entry is well formed when a full stack holds at least one item.
    pub open spec fn wf(self) -> bool {
        self.max_stack >= 1
    }
}

} // verus!
