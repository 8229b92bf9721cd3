//! A fixed-capacity, slot-based inventory with stacking allocation,
//! a pickup queue for a collecting agent, and a diff-synchronized
//! read-only projection of the inventory for presentation.

pub mod catalog;
pub mod inv;
pub mod item;
pub mod pickup;
pub mod slot;
pub mod ui;
