//! Slots: single field values that are optional through a sentinel value
//! rather than a tag.
//!
//! [`Slot`] is a copy of a slot's value, [`SlotMut`] a handle on the value
//! where it is stored. Which value means "empty" depends on the type: the
//! largest value for plain integers, a zero ID or type for accessories.
use vstd::prelude::*;

use crate::character::ClassAccessory;
use crate::item::{item_type_valid, ItemSlot};

verus! {

/// A copy of a slot's value.
#[derive(Debug, Clone, Copy, PartialEq, Eq)]
pub struct Slot<T>(pub T);

/// A handle on a slot's value where it is stored.
pub struct SlotMut<'a, T>(pub &'a mut T);

/// A byte slot is empty when it holds the largest value.
pub open spec fn byte_is_empty(v: u8) -> bool {
    v == u8::MAX
}

/// A 16-bit slot is empty when it holds the largest value.
pub open spec fn short_is_empty(v: u16) -> bool {
    v == u16::MAX
}

/// The empty value of an accessory slot.
pub open spec fn empty_accessory() -> ClassAccessory {
    ClassAccessory { bdat_id: 0, slot_index: 0, item_type: 0 }
}

/// An accessory slot is empty when its ID or its type is zero.
pub open spec fn accessory_is_empty(a: ClassAccessory) -> bool {
    a.bdat_id == 0 || a.item_type == 0
}

impl Slot<u8> {
    pub fn is_empty(&self) -> (r: bool)
        ensures
            r == byte_is_empty(self.0),
    {
        self.0 == u8::MAX
    }
}

impl Slot<u16> {
    pub fn is_empty(&self) -> (r: bool)
        ensures
            r == short_is_empty(self.0),
    {
        self.0 == u16::MAX
    }
}

impl Slot<ClassAccessory> {
    pub fn is_empty(&self) -> (r: bool)
        ensures
            r == accessory_is_empty(self.0),
    {
        self.0.bdat_id == 0 || self.0.item_type == 0
    }
}

impl<'a> SlotMut<'a, u8> {
    pub fn is_empty(&self) -> (r: bool)
        ensures
            r == byte_is_empty(*old(self.0)),
    {
        *self.0 == u8::MAX
    }

    /// Empties the slot: it then holds the largest value.
    pub fn set_empty(&mut self)
        ensures
            *final(self).0 == u8::MAX,
            *final(final(self).0) == *final(old(self).0),
    {
        *self.0 = u8::MAX;
    }
}

impl<'a> SlotMut<'a, u16> {
    pub fn is_empty(&self) -> (r: bool)
        ensures
            r == short_is_empty(*old(self.0)),
    {
        *self.0 == u16::MAX
    }

    /// Empties the slot: it then holds the largest value.
    pub fn set_empty(&mut self)
        ensures
            *final(self).0 == u16::MAX,
            *final(final(self).0) == *final(old(self).0),
    {
        *self.0 = u16::MAX;
    }
}

impl<'a> SlotMut<'a, ClassAccessory> {
    pub fn is_empty(&self) -> (r: bool)
        ensures
            r == accessory_is_empty(*old(self.0)),
    {
        Slot(*self.0).is_empty()
    }

    /// Empties the slot: every field becomes zero.
    pub fn set_empty(&mut self)
        ensures
            *final(self).0 == empty_accessory(),
            *final(final(self).0) == *final(old(self).0),
    {
        *self.0 = ClassAccessory { bdat_id: 0, slot_index: 0, item_type: 0 };
    }

    /// Points the accessory slot at an inventory slot.
    ///
    /// The item type, BDAT ID and slot index are all taken from the inventory
    /// slot. If the inventory slot is empty, the accessory slot is emptied
    /// instead.
    pub fn set_from_inventory(&mut self, inventory_slot: &ItemSlot)
        requires
            inventory_slot.is_valid_spec() ==> item_type_valid(inventory_slot.item_type),
        ensures
            *final(self).0 == (if inventory_slot.is_valid_spec() {
                ClassAccessory {
                    bdat_id: inventory_slot.item_id,
                    slot_index: inventory_slot.slot_index,
                    item_type: inventory_slot.item_type as u16,
                }
            } else {
                empty_accessory()
            }),
            *final(final(self).0) == *final(old(self).0),
    {
        if !inventory_slot.is_valid() {
            self.set_empty();
            return;
        }
        let item_type = inventory_slot.item_type().raw() as u16;
        *self.0 = ClassAccessory {
            bdat_id: inventory_slot.item_id(),
            slot_index: inventory_slot.index(),
            item_type,
        };
    }
}

/// Emptying a slot leaves it empty, and emptying it again changes nothing:
/// each slot type is emptied to one constant, and that constant is empty.
pub proof fn lemma_empty_values_are_empty()
    ensures
        byte_is_empty(u8::MAX),
        short_is_empty(u16::MAX),
        accessory_is_empty(empty_accessory()),
        !byte_is_empty(0),
        !short_is_empty(0),
{
}

} // verus!
