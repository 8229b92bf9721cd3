//! The item catalog: the process-wide owner of item definitions, loaded
//! once, read-only afterwards, unique by name.

use vstd::prelude::*;
use crate::inv::catalog_consistent;
use crate::item::InventoryItem;
use crate::slot::InventorySlot;

verus! {

/// One catalog entry: the unique item name and the definition it denotes.
#[derive(Debug, PartialEq, Eq)]
pub struct CatalogEntry {
    pub name: String,
    pub item: InventoryItem,
}

/// Why the catalog declined a registration.
#[derive(Clone, Copy, Debug, PartialEq, Eq, Structural)]
pub enum CatalogError {
    /// The name is already registered; names are unique within the catalog.
    DuplicateName,
}

/// Item definitions in load order. A definition's id is its load position,
/// and names are unique, so ids stand for names: the inventory's stacking
/// compatibility test compares ids where the design speaks of exact,
/// case-sensitive name equality.
pub struct Catalog {
    pub entries: Vec<CatalogEntry>,
}

impl Catalog {
    /// The catalog invariant: ids are load positions and names are unique.
    pub open spec fn wf(self) -> bool {
        &&& forall|i: int|
            0 <= i < self.entries@.len() ==> (#[trigger] self.entries@[i]).item.id == i
        &&& forall|i: int, j: int|
            #![trigger self.entries@[i], self.entries@[j]]
            0 <= i < j < self.entries@.len() ==> self.entries@[i].name@ != self.entries@[j].name@
    }

    /// Does this catalog own the definition, exactly as written?
    pub open spec fn defines(self, item: InventoryItem) -> bool {
        (item.id as int) < self.entries@.len() && self.entries@[item.id as int].item == item
    }

    /// Creates an empty catalog.
    pub fn new() -> (c: Catalog)
        ensures
            c.wf(),
            c.entries@.len() == 0,
    {
        Catalog { entries: Vec::new() }
    }

    /// Registers a definition under a fresh name and returns its id — its
    /// load position — or declines with `DuplicateName` exactly when the
    /// name is already registered, changing nothing.
    pub fn register(
        &mut self,
        name: String,
        max_stack: u32,
        equippable: bool,
        icon: Option<u32>,
        equip_scene: Option<u32>,
    ) -> (r: Result<u32, CatalogError>)
        requires
            old(self).wf(),
            max_stack >= 1,
            old(self).entries@.len() < u32::MAX as int,
        ensures
            final(self).wf(),
            (exists|i: int|
                0 <= i < old(self).entries@.len() && (#[trigger] old(self).entries@[i]).name@
                    == name@) ==> r == Err::<u32, CatalogError>(CatalogError::DuplicateName)
                && *final(self) == *old(self),
            (forall|i: int|
                0 <= i < old(self).entries@.len() ==> (#[trigger] old(self).entries@[i]).name@
                    != name@) ==> {
                &&& r == Ok::<u32, CatalogError>(old(self).entries@.len() as u32)
                &&& final(self).entries@ == old(self).entries@.push(
                    CatalogEntry {
                        name,
                        item: InventoryItem {
                            id: old(self).entries@.len() as u32,
                            max_stack,
                            equippable,
                            icon,
                            equip_scene,
                        },
                    },
                )
            },
    {
        let mut i: usize = 0;
        while i < self.entries.len()
            invariant
                old(self).wf(),
                i <= self.entries@.len(),
                *self == *old(self),
                forall|j: int| 0 <= j < i ==> (#[trigger] self.entries@[j]).name@ != name@,
            decreases self.entries@.len() - i,
        {
            if self.entries[i].name == name {
                return Err(CatalogError::DuplicateName);
            }
            i = i + 1;
        }
        let id = self.entries.len() as u32;
        let item = InventoryItem { id, max_stack, equippable, icon, equip_scene };
        self.entries.push(CatalogEntry { name, item });
        Ok(id)
    }

    /// The id registered for a name, when there is one: the index whose
    /// entry carries exactly that name.
    pub fn id_of(&self, name: &String) -> (r: Option<u32>)
        requires
            self.wf(),
        ensures
            r matches Some(id) ==> (id as int) < self.entries@.len() && self.entries@[id as int].name@
                == name@,
            r is None ==> forall|i: int|
                0 <= i < self.entries@.len() ==> (#[trigger] self.entries@[i]).name@ != name@,
    {
        let mut i: usize = 0;
        while i < self.entries.len()
            invariant
                self.wf(),
                i <= self.entries@.len(),
                forall|j: int| 0 <= j < i ==> (#[trigger] self.entries@[j]).name@ != name@,
            decreases self.entries@.len() - i,
        {
            if self.entries[i].name == *name {
                proof {
                    assert(self.entries@[i as int].item.id == i as int);
                }
                return Some(i as u32);
            }
            i = i + 1;
        }
        None
    }

    /// The definition an id denotes, or nothing for an unassigned id.
    pub fn get(&self, id: u32) -> (r: Option<InventoryItem>)
        ensures
            (id as int) < self.entries@.len() ==> r == Some(self.entries@[id as int].item),
            (id as int) >= self.entries@.len() ==> r is None,
    {
        if (id as usize) < self.entries.len() {
            Some(self.entries[id as usize].item)
        } else {
            None
        }
    }

    /// Id equality stands for name equality: two definitions this catalog
    /// owns are the same exactly when their ids agree, and their ids agree
    /// exactly when their registered names agree.
    pub proof fn lemma_id_is_identity(self, a: InventoryItem, b: InventoryItem)
        requires
            self.wf(),
            self.defines(a),
            self.defines(b),
        ensures
            (a.id == b.id) <==> (a == b),
            (self.entries@[a.id as int].name@ == self.entries@[b.id as int].name@) <==> (a.id
                == b.id),
    {
        if a.id != b.id {
            if a.id < b.id {
                assert(self.entries@[a.id as int].name@ != self.entries@[b.id as int].name@);
            } else {
                assert(self.entries@[b.id as int].name@ != self.entries@[a.id as int].name@);
            }
        }
    }

    /// Definitions drawn from one catalog satisfy the inventory's
    /// consistency premise: every stack whose item shares the added item's
    /// id holds exactly the added definition.
    pub proof fn lemma_defines_consistent(
        self,
        slots: Seq<InventorySlot>,
        item: InventoryItem,
    )
        requires
            self.wf(),
            self.defines(item),
            forall|j: int|
                0 <= j < slots.len() ==> match (#[trigger] slots[j]).item {
                    Some(it) => self.defines(it),
                    None => true,
                },
        ensures
            catalog_consistent(slots, item),
    {
        assert forall|j: int| 0 <= j < slots.len() implies match (#[trigger] slots[j]).item {
            Some(it) => it.id == item.id ==> it == item,
            None => true,
        } by {
            match slots[j].item {
                Some(it) => {
                    if it.id == item.id {
                        assert(self.entries@[it.id as int].item == it);
                    }
                },
                None => {},
            }
        }
    }
}

} // verus!
