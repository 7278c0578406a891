//! Item stacks as the game stores them in inventories and equipment.
use vstd::prelude::*;

verus! {

/// Whether a stack holds ordinary items or cargo.
#[derive(Clone, Copy, Debug, PartialEq, Eq, Structural)]
pub enum ItemType {
    Item,
    Cargo,
}

/// A stack of one kind of item.
#[derive(Clone, Copy, Debug, PartialEq, Eq)]
pub struct ItemStack {
    pub item_id: i32,
    pub quantity: i32,
    pub item_type: ItemType,
    pub durability: Option<i32>,
}

} // verus!
