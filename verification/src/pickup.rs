//! The pickup queue of a collecting agent, and the pickup-input step that
//! drives the inventory from it.

use vstd::prelude::*;
use crate::inv::{catalog_consistent, spec_add, Inventory};
use crate::item::InventoryItem;

verus! {

/// A world-resident pickup candidate: an item type with the quantity the
/// world object still offers. `id` identifies the world object itself,
/// distinct from the item's catalog id.
#[derive(Clone, Copy, Debug, PartialEq, Eq)]
pub struct Pickup {
    pub id: u64,
    pub item: InventoryItem,
    pub quantity: u32,
}

impl Pickup {
    /// A candidate is well formed when its item is and it still offers
    /// at least one item.
    pub open spec fn wf(self) -> bool {
        self.item.wf() && self.quantity > 0
    }
}

/// What a pickup-input attempt did.
#[derive(Clone, Copy, Debug, PartialEq, Eq, Structural)]
pub enum PickOutcome {
    /// The queue was empty: nothing was attempted.
    EmptyQueue,
    /// The whole offered quantity was placed: the world object with this id
    /// should be destroyed, and the new front, if any, highlighted.
    Collected { id: u64 },
    /// Only part was placed: the world object with this id stays, now
    /// offering the remaining quantity.
    Partial { id: u64, remaining: u32 },
}

/// The queue contents after removing the first entry with the given world
/// id, or the sequence unchanged when no entry has it.
pub open spec fn remove_first_with_id(entries: Seq<Pickup>, id: u64) -> Seq<Pickup>
    decreases entries.len(),
{
    if entries.len() == 0 {
        entries
    } else if entries[0].id == id {
        entries.drop_first()
    } else {
        seq![entries[0]] + remove_first_with_id(entries.drop_first(), id)
    }
}

/// Ordered pickup candidates of one collecting agent; the front is the most
/// recently entered and the sole target of a pickup input.
pub struct PickupQueue {
    pub entries: Vec<Pickup>,
}

impl PickupQueue {
    /// Every queued candidate is well formed.
    pub open spec fn wf(self) -> bool {
        forall|i: int| 0 <= i < self.entries@.len() ==> (#[trigger] self.entries@[i]).wf()
    }

    /// Creates an empty queue.
    pub fn new() -> (q: PickupQueue)
        ensures
            q.wf(),
            q.entries@.len() == 0,
    {
        PickupQueue { entries: Vec::new() }
    }

    /// The candidate entering the detection volume becomes the new front.
    /// Returns the world id that loses the highlight: the previous front,
    /// if the queue was not empty.
    pub fn on_enter(&mut self, p: Pickup) -> (prev: Option<u64>)
        requires
            old(self).wf(),
            p.wf(),
        ensures
            final(self).wf(),
            final(self).entries@ == seq![p] + old(self).entries@,
            old(self).entries@.len() == 0 ==> prev is None,
            old(self).entries@.len() > 0 ==> prev == Some(old(self).entries@[0].id),
    {
        let prev = if self.entries.len() > 0 {
            Some(self.entries[0].id)
        } else {
            None
        };
        self.entries.insert(0, p);
        prev
    }

    /// The candidate leaving the detection volume is removed by identity:
    /// the first entry with its world id goes, wherever it stands; a queue
    /// without that id is left unchanged.
    pub fn on_exit(&mut self, id: u64)
        requires
            old(self).wf(),
        ensures
            final(self).wf(),
            final(self).entries@ == remove_first_with_id(old(self).entries@, id),
    {
        let mut i: usize = 0;
        while i < self.entries.len()
            invariant
                old(self).wf(),
                i <= self.entries@.len(),
                self.entries@ == old(self).entries@,
                forall|j: int| 0 <= j < i ==> (#[trigger] self.entries@[j]).id != id,
            decreases self.entries@.len() - i,
        {
            if self.entries[i].id == id {
                self.entries.remove(i);
                proof {
                    lemma_remove_first_found(old(self).entries@, id, i as int);
                    old(self).entries@.remove_ensures(i as int);
                    assert forall|k: int|
                        0 <= k < self.entries@.len() implies (#[trigger] self.entries@[k]).wf() by {
                        if k < i {
                            assert(self.entries@[k] == old(self).entries@[k]);
                        } else {
                            assert(self.entries@[k] == old(self).entries@[k + 1]);
                        }
                    }
                }
                return;
            }
            i = i + 1;
        }
        proof {
            lemma_remove_first_absent(old(self).entries@, id);
        }
    }

    /// The front candidate, the sole target of a pickup input, or nothing
    /// when the queue is empty.
    pub fn front(&self) -> (r: Option<Pickup>)
        ensures
            self.entries@.len() == 0 ==> r is None,
            self.entries@.len() > 0 ==> r == Some(self.entries@[0]),
    {
        if self.entries.len() > 0 {
            Some(self.entries[0])
        } else {
            None
        }
    }
}

/// Where a first entry with the id stands, removal deletes exactly it.
proof fn lemma_remove_first_found(entries: Seq<Pickup>, id: u64, i: int)
    requires
        0 <= i < entries.len(),
        entries[i].id == id,
        forall|j: int| 0 <= j < i ==> (#[trigger] entries[j]).id != id,
    ensures
        remove_first_with_id(entries, id) == entries.remove(i),
    decreases i,
{
    if i == 0 {
        assert(entries.drop_first() =~= entries.remove(0));
    } else {
        lemma_remove_first_found(entries.drop_first(), id, i - 1);
        assert(entries.drop_first().remove(i - 1) =~= entries.remove(i).drop_first());
        assert(seq![entries[0]] + entries.remove(i).drop_first() =~= entries.remove(i));
    }
}

/// Where no entry has the id, removal changes nothing.
proof fn lemma_remove_first_absent(entries: Seq<Pickup>, id: u64)
    requires
        forall|j: int| 0 <= j < entries.len() ==> (#[trigger] entries[j]).id != id,
    ensures
        remove_first_with_id(entries, id) == entries,
    decreases entries.len(),
{
    if entries.len() > 0 {
        lemma_remove_first_absent(entries.drop_first(), id);
        assert(seq![entries[0]] + entries.drop_first() =~= entries);
    }
}

/// One pickup input: with an empty queue this is a no-op; otherwise the
/// inventory is offered the front candidate's item and quantity by
/// `Inventory::add_item`. On full placement the front leaves the queue; on
/// partial placement it stays at the front with its quantity rewritten to
/// the unplaced remainder.
pub fn pick_item(queue: &mut PickupQueue, inv: &mut Inventory) -> (r: PickOutcome)
    requires
        old(queue).wf(),
        old(inv).wf(),
        old(queue).entries@.len() > 0 ==> catalog_consistent(
            old(inv).slots@,
            old(queue).entries@[0].item,
        ),
    ensures
        final(queue).wf(),
        final(inv).wf(),
        final(inv).size == old(inv).size,
        final(inv).hotbar_size == old(inv).hotbar_size,
        old(queue).entries@.len() == 0 ==> {
            &&& r == PickOutcome::EmptyQueue
            &&& *final(queue) == *old(queue)
            &&& *final(inv) == *old(inv)
        },
        old(queue).entries@.len() > 0 ==> ({
            let f = old(queue).entries@[0];
            let (placed, leftover) = spec_add(old(inv).slots@, f.item, f.quantity as nat);
            let rewritten = Pickup { id: f.id, item: f.item, quantity: leftover as u32 };
            &&& final(inv).slots@ == placed
            &&& (leftover == 0 ==> {
                &&& r == (PickOutcome::Collected { id: f.id })
                &&& final(queue).entries@ == old(queue).entries@.drop_first()
            })
            &&& (leftover > 0 ==> {
                &&& r == (PickOutcome::Partial { id: f.id, remaining: leftover as u32 })
                &&& final(queue).entries@ == old(queue).entries@.update(0, rewritten)
            })
        }),
{
    if queue.entries.len() == 0 {
        return PickOutcome::EmptyQueue;
    }
    let f = queue.entries[0];
    match inv.add_item(&f.item, f.quantity) {
        Ok(()) => {
            queue.entries.remove(0);
            proof {
                assert(queue.entries@ =~= old(queue).entries@.drop_first());
            }
            PickOutcome::Collected { id: f.id }
        },
        Err(remaining) => {
            queue.entries[0] = Pickup { id: f.id, item: f.item, quantity: remaining };
            PickOutcome::Partial { id: f.id, remaining }
        },
    }
}

} // verus!
