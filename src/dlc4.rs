//! Save data of the fourth DLC: Enemypedia victory counts and the battle
//! manuals of each character and class.
use vstd::prelude::*;

use crate::character::ClassAccessory;
use crate::slot::{Slot, SlotMut};
use crate::item::CHARACTER_MAX;
use crate::codec::{
    all_well_formed, canonical_seq, changed_only, emit_at, emit_seq, lemma_at_rewrite,
    lemma_at_round_trip, lemma_emit_at_frame, lemma_emit_at_shift, lemma_emit_seq_frame,
    lemma_emit_seq_shift, lemma_parse_at_local, lemma_parse_at_shift, lemma_parse_seq_local,
    lemma_parse_seq_shift, lemma_parse_seq_well_formed, lemma_seq_rewrite, lemma_seq_round_trip,
    parse_at, parse_seq, read_seq, views, write_seq, SaveBin,
};
use crate::error::SaveError;

verus! {

pub const DLC4_ENEMYPEDIA_MAX_EACH: usize = 200;

/// The extra inventory of one character in the fourth DLC.
#[derive(Debug, Clone, PartialEq, Eq)]
pub struct Dlc4ExtraInventory {
    /// Indexed by class ID - 1.
    pub battle_manual: Vec<ClassAccessory>,
}

/// The content of a [`Dlc4ExtraInventory`], with its arrays as sequences.
pub struct Dlc4ExtraInventoryModel {
    pub battle_manual: Seq<ClassAccessory>,
}

impl View for Dlc4ExtraInventory {
    type V = Dlc4ExtraInventoryModel;

    open spec fn view(&self) -> Dlc4ExtraInventoryModel {
        Dlc4ExtraInventoryModel {
            battle_manual: views(self.battle_manual@),
        }
    }
}

impl Dlc4ExtraInventory {
    /// The value whose encoding starts at the beginning of `bytes`.
    pub open spec fn parse_fields(bytes: Seq<u8>) -> Dlc4ExtraInventoryModel {
        Dlc4ExtraInventoryModel {
            battle_manual: parse_seq::<ClassAccessory>(bytes, 0, 64 as nat),
        }
    }

    /// `buf` with the encoding of `v` written over its start.
    pub open spec fn emit_fields(v: Dlc4ExtraInventoryModel, buf: Seq<u8>) -> Seq<u8> {
        emit_seq::<ClassAccessory>(v.battle_manual, buf, 0)
    }

    /// The shape of the arrays of `v`.
    pub open spec fn fields_well_formed(v: Dlc4ExtraInventoryModel) -> bool {
        &&& v.battle_manual.len() == 64
        &&& all_well_formed::<ClassAccessory>(v.battle_manual)
    }

    proof fn lemma_fields(v: Dlc4ExtraInventoryModel, buf: Seq<u8>)
        requires
            buf.len() >= 512,
            Self::fields_well_formed(v),
        ensures
            changed_only(buf, Self::emit_fields(v, buf), 0, 512),
            Self::parse_fields(Self::emit_fields(v, buf)) == v,
    {
        let b1 = emit_seq::<ClassAccessory>(v.battle_manual, buf, 0);
        lemma_emit_seq_frame::<ClassAccessory>(v.battle_manual, buf, 0);
        assert(b1 == Self::emit_fields(v, buf));
        {
            lemma_seq_round_trip::<ClassAccessory>(v.battle_manual, buf, 0);
            assert(Self::parse_fields(b1) == v);
        }
    }
}

impl SaveBin for Dlc4ExtraInventory {
    open spec fn byte_size() -> nat {
        512
    }

    open spec fn well_formed(v: Dlc4ExtraInventoryModel) -> bool {
        Self::fields_well_formed(v)
    }

    open spec fn parse(bytes: Seq<u8>) -> Dlc4ExtraInventoryModel {
        Self::parse_fields(bytes)
    }

    open spec fn emit(v: Dlc4ExtraInventoryModel, buf: Seq<u8>) -> Seq<u8> {
        Self::emit_fields(v, buf)
    }

    open spec fn check(v: Dlc4ExtraInventoryModel) -> Result<(), SaveError> {
        Ok(())
    }

    open spec fn canonical(bytes: Seq<u8>) -> bool {
        canonical_seq::<ClassAccessory>(bytes, 0, 64 as nat)
    }

    proof fn lemma_rewrite(bytes: Seq<u8>) {
        let v = Self::parse_fields(bytes);
        lemma_seq_rewrite::<ClassAccessory>(bytes, 0, 64 as nat);
    }

    proof fn lemma_parse_well_formed(bytes: Seq<u8>) {
        lemma_parse_seq_well_formed::<ClassAccessory>(bytes, 0, 64 as nat);
    }

    proof fn lemma_emit_frame(v: Dlc4ExtraInventoryModel, buf: Seq<u8>) {
        Self::lemma_fields(v, buf);
    }

    proof fn lemma_parse_local(a: Seq<u8>, b: Seq<u8>) {
        lemma_parse_seq_local::<ClassAccessory>(a, b, 0, 64 as nat);
    }

    proof fn lemma_round_trip(v: Dlc4ExtraInventoryModel, buf: Seq<u8>) {
        Self::lemma_fields(v, buf);
    }

    fn size() -> (r: usize) {
        512
    }

    fn read_at(bytes: &[u8], off: usize) -> (r: Dlc4ExtraInventory) {
        let _ = bytes.len();
        proof {
            lemma_parse_seq_shift::<ClassAccessory>(bytes@, off as int, 0, 64 as nat);
        }
        Dlc4ExtraInventory {
            battle_manual: read_seq::<ClassAccessory>(bytes, off, 64),
        }
    }

    fn write_at(&self, bytes: &mut [u8], off: usize) {
        let ghost b = old(bytes)@;
        let _ = bytes.len();
        let ghost a0 = bytes@;
        write_seq(&self.battle_manual, bytes, off);
        proof {
            let p = b.take(off as int);
            let s0 = b.skip(off as int);
            assert(b =~= p + s0);
            lemma_emit_seq_shift::<ClassAccessory>(self@.battle_manual, p, s0, 0);
        }
    }

    fn validate(&self) -> (r: Result<(), SaveError>) {
        Ok(())
    }
}

/// Save data of the fourth DLC.
#[derive(Debug, Clone, PartialEq, Eq)]
pub struct Dlc4 {
    /// Number of victories for Enemypedia entries 0-199.
    pub enemypedia_0_199: Vec<u8>,
    /// Extra inventory, indexed by character ID - 1.
    pub extra_inventory: Vec<Dlc4ExtraInventory>,
    /// Number of victories for Enemypedia entries 200-399.
    pub enemypedia_200_399: Vec<u8>,
}

/// The content of a [`Dlc4`], with its arrays as sequences.
pub struct Dlc4Model {
    pub enemypedia_0_199: Seq<u8>,
    pub extra_inventory: Seq<Dlc4ExtraInventoryModel>,
    pub enemypedia_200_399: Seq<u8>,
}

impl View for Dlc4 {
    type V = Dlc4Model;

    open spec fn view(&self) -> Dlc4Model {
        Dlc4Model {
            enemypedia_0_199: views(self.enemypedia_0_199@),
            extra_inventory: views(self.extra_inventory@),
            enemypedia_200_399: views(self.enemypedia_200_399@),
        }
    }
}

impl Dlc4 {
    /// The value whose encoding starts at the beginning of `bytes`.
    pub open spec fn parse_fields(bytes: Seq<u8>) -> Dlc4Model {
        Dlc4Model {
            enemypedia_0_199: parse_seq::<u8>(bytes, 0, DLC4_ENEMYPEDIA_MAX_EACH as nat),
            extra_inventory: parse_seq::<Dlc4ExtraInventory>(bytes, 200, CHARACTER_MAX as nat),
            enemypedia_200_399: parse_seq::<u8>(bytes, 32968, DLC4_ENEMYPEDIA_MAX_EACH as nat),
        }
    }

    /// `buf` with the encoding of `v` written over its start.
    pub open spec fn emit_fields(v: Dlc4Model, buf: Seq<u8>) -> Seq<u8> {
        let b1 = emit_seq::<u8>(v.enemypedia_0_199, buf, 0);
        let b2 = emit_seq::<Dlc4ExtraInventory>(v.extra_inventory, b1, 200);
        emit_seq::<u8>(v.enemypedia_200_399, b2, 32968)
    }

    /// The shape of the arrays of `v`.
    pub open spec fn fields_well_formed(v: Dlc4Model) -> bool {
        &&& v.enemypedia_0_199.len() == DLC4_ENEMYPEDIA_MAX_EACH
        &&& all_well_formed::<u8>(v.enemypedia_0_199)
        &&& v.extra_inventory.len() == CHARACTER_MAX
        &&& all_well_formed::<Dlc4ExtraInventory>(v.extra_inventory)
        &&& v.enemypedia_200_399.len() == DLC4_ENEMYPEDIA_MAX_EACH
        &&& all_well_formed::<u8>(v.enemypedia_200_399)
    }

    proof fn lemma_fields(v: Dlc4Model, buf: Seq<u8>)
        requires
            buf.len() >= 33168,
            Self::fields_well_formed(v),
        ensures
            changed_only(buf, Self::emit_fields(v, buf), 0, 33168),
            Self::parse_fields(Self::emit_fields(v, buf)) == v,
    {
        let b1 = emit_seq::<u8>(v.enemypedia_0_199, buf, 0);
        lemma_emit_seq_frame::<u8>(v.enemypedia_0_199, buf, 0);
        let b2 = emit_seq::<Dlc4ExtraInventory>(v.extra_inventory, b1, 200);
        lemma_emit_seq_frame::<Dlc4ExtraInventory>(v.extra_inventory, b1, 200);
        let b3 = emit_seq::<u8>(v.enemypedia_200_399, b2, 32968);
        lemma_emit_seq_frame::<u8>(v.enemypedia_200_399, b2, 32968);
        assert(b3 == Self::emit_fields(v, buf));
        {
            lemma_seq_round_trip::<u8>(v.enemypedia_0_199, buf, 0);
            lemma_parse_seq_local::<u8>(b3, b1, 0, DLC4_ENEMYPEDIA_MAX_EACH as nat);
            lemma_seq_round_trip::<Dlc4ExtraInventory>(v.extra_inventory, b1, 200);
            lemma_parse_seq_local::<Dlc4ExtraInventory>(b3, b2, 200, CHARACTER_MAX as nat);
            lemma_seq_round_trip::<u8>(v.enemypedia_200_399, b2, 32968);
            assert(Self::parse_fields(b3) == v);
        }
    }
}

impl SaveBin for Dlc4 {
    open spec fn byte_size() -> nat {
        33168
    }

    open spec fn well_formed(v: Dlc4Model) -> bool {
        Self::fields_well_formed(v)
    }

    open spec fn parse(bytes: Seq<u8>) -> Dlc4Model {
        Self::parse_fields(bytes)
    }

    open spec fn emit(v: Dlc4Model, buf: Seq<u8>) -> Seq<u8> {
        Self::emit_fields(v, buf)
    }

    open spec fn check(v: Dlc4Model) -> Result<(), SaveError> {
        Ok(())
    }

    open spec fn canonical(bytes: Seq<u8>) -> bool {
        &&& canonical_seq::<u8>(bytes, 0, DLC4_ENEMYPEDIA_MAX_EACH as nat)
        &&& canonical_seq::<Dlc4ExtraInventory>(bytes, 200, CHARACTER_MAX as nat)
        &&& canonical_seq::<u8>(bytes, 32968, DLC4_ENEMYPEDIA_MAX_EACH as nat)
    }

    proof fn lemma_rewrite(bytes: Seq<u8>) {
        let v = Self::parse_fields(bytes);
        lemma_seq_rewrite::<u8>(bytes, 0, DLC4_ENEMYPEDIA_MAX_EACH as nat);
        lemma_seq_rewrite::<Dlc4ExtraInventory>(bytes, 200, CHARACTER_MAX as nat);
        lemma_seq_rewrite::<u8>(bytes, 32968, DLC4_ENEMYPEDIA_MAX_EACH as nat);
    }

    proof fn lemma_parse_well_formed(bytes: Seq<u8>) {
        lemma_parse_seq_well_formed::<u8>(bytes, 0, DLC4_ENEMYPEDIA_MAX_EACH as nat);
        lemma_parse_seq_well_formed::<Dlc4ExtraInventory>(bytes, 200, CHARACTER_MAX as nat);
        lemma_parse_seq_well_formed::<u8>(bytes, 32968, DLC4_ENEMYPEDIA_MAX_EACH as nat);
    }

    proof fn lemma_emit_frame(v: Dlc4Model, buf: Seq<u8>) {
        Self::lemma_fields(v, buf);
    }

    proof fn lemma_parse_local(a: Seq<u8>, b: Seq<u8>) {
        lemma_parse_seq_local::<u8>(a, b, 0, DLC4_ENEMYPEDIA_MAX_EACH as nat);
        lemma_parse_seq_local::<Dlc4ExtraInventory>(a, b, 200, CHARACTER_MAX as nat);
        lemma_parse_seq_local::<u8>(a, b, 32968, DLC4_ENEMYPEDIA_MAX_EACH as nat);
    }

    proof fn lemma_round_trip(v: Dlc4Model, buf: Seq<u8>) {
        Self::lemma_fields(v, buf);
    }

    fn size() -> (r: usize) {
        33168
    }

    fn read_at(bytes: &[u8], off: usize) -> (r: Dlc4) {
        let _ = bytes.len();
        proof {
            lemma_parse_seq_shift::<u8>(bytes@, off as int, 0, DLC4_ENEMYPEDIA_MAX_EACH as nat);
            lemma_parse_seq_shift::<Dlc4ExtraInventory>(bytes@, off as int, 200, CHARACTER_MAX as nat);
            lemma_parse_seq_shift::<u8>(bytes@, off as int, 32968, DLC4_ENEMYPEDIA_MAX_EACH as nat);
        }
        Dlc4 {
            enemypedia_0_199: read_seq::<u8>(bytes, off, DLC4_ENEMYPEDIA_MAX_EACH),
            extra_inventory: read_seq::<Dlc4ExtraInventory>(bytes, off + 200, CHARACTER_MAX),
            enemypedia_200_399: read_seq::<u8>(bytes, off + 32968, DLC4_ENEMYPEDIA_MAX_EACH),
        }
    }

    fn write_at(&self, bytes: &mut [u8], off: usize) {
        let ghost b = old(bytes)@;
        let _ = bytes.len();
        let ghost a0 = bytes@;
        write_seq(&self.enemypedia_0_199, bytes, off);
        proof {
            lemma_emit_seq_frame::<u8>(self@.enemypedia_0_199, a0, (off) as int);
        }
        let ghost a1 = bytes@;
        write_seq(&self.extra_inventory, bytes, off + 200);
        proof {
            lemma_emit_seq_frame::<Dlc4ExtraInventory>(self@.extra_inventory, a1, (off + 200) as int);
        }
        let ghost a2 = bytes@;
        write_seq(&self.enemypedia_200_399, bytes, off + 32968);
        proof {
            let p = b.take(off as int);
            let s0 = b.skip(off as int);
            assert(b =~= p + s0);
            lemma_emit_seq_shift::<u8>(self@.enemypedia_0_199, p, s0, 0);
            let s1 = emit_seq::<u8>(self@.enemypedia_0_199, s0, 0);
            lemma_emit_seq_frame::<u8>(self@.enemypedia_0_199, s0, 0);
            lemma_emit_seq_shift::<Dlc4ExtraInventory>(self@.extra_inventory, p, s1, 200);
            let s2 = emit_seq::<Dlc4ExtraInventory>(self@.extra_inventory, s1, 200);
            lemma_emit_seq_frame::<Dlc4ExtraInventory>(self@.extra_inventory, s1, 200);
            lemma_emit_seq_shift::<u8>(self@.enemypedia_200_399, p, s2, 32968);
        }
    }

    fn validate(&self) -> (r: Result<(), SaveError>) {
        Ok(())
    }
}


} // verus!

verus! {

impl Dlc4 {
    /// The Enemypedia arrays have their declared lengths.
    pub open spec fn has_enemypedia(&self) -> bool {
        &&& self.enemypedia_0_199@.len() == DLC4_ENEMYPEDIA_MAX_EACH
        &&& self.enemypedia_200_399@.len() == DLC4_ENEMYPEDIA_MAX_EACH
    }

    /// The victory count of Enemypedia entry `index` (`0 <= index < 400`).
    pub open spec fn enemypedia_count(&self, index: int) -> u8 {
        if index < 200 {
            self.enemypedia_0_199@[index]
        } else {
            self.enemypedia_200_399@[index - 200]
        }
    }

    /// Gets the current number of victories against an Enemypedia enemy
    /// (`0 <= index < 400`).
    pub fn get_enemypedia_count(&self, index: usize) -> (r: u8)
        requires
            self.has_enemypedia(),
            index < 400,
        ensures
            r == self.enemypedia_count(index as int),
    {
        if index < 200 {
            self.enemypedia_0_199[index]
        } else {
            self.enemypedia_200_399[index - 200]
        }
    }

    /// Updates the current number of victories against an Enemypedia enemy
    /// (`0 <= index < 400`).
    pub fn set_enemypedia_count(&mut self, index: usize, count: u8)
        requires
            old(self).has_enemypedia(),
            index < 400,
        ensures
            final(self).has_enemypedia(),
            final(self).enemypedia_count(index as int) == count,
            forall|i: int|
                0 <= i < 400 && i != index ==> #[trigger] final(self).enemypedia_count(i) == old(
                    self,
                ).enemypedia_count(i),
            final(self).extra_inventory == old(self).extra_inventory,
    {
        if index < 200 {
            self.enemypedia_0_199.set(index, count);
        } else {
            self.enemypedia_200_399.set(index - 200, count);
        }
    }

    /// Whether the battle manual of character `chr_id` and class `class_id`
    /// (both counted from 1) is stored.
    pub open spec fn has_battle_manual(&self, chr_id: usize, class_id: usize) -> bool {
        &&& 1 <= chr_id <= self.extra_inventory@.len()
        &&& 1 <= class_id <= self.extra_inventory@[chr_id - 1].battle_manual@.len()
    }

    /// Returns the battle manual slot of a character and class pair. The IDs
    /// start at 1.
    pub fn battle_manual_slot(&self, chr_id: usize, class_id: usize) -> (r: Slot<ClassAccessory>)
        requires
            self.has_battle_manual(chr_id, class_id),
        ensures
            r.0 == self.extra_inventory@[chr_id - 1].battle_manual@[class_id - 1],
    {
        Slot(self.extra_inventory[chr_id - 1].battle_manual[class_id - 1])
    }

    /// Returns the battle manual slot of a character and class pair, for
    /// editing. The IDs start at 1.
    pub fn battle_manual_slot_mut(&mut self, chr_id: usize, class_id: usize) -> (r: SlotMut<
        '_,
        ClassAccessory,
    >)
        requires
            old(self).has_battle_manual(chr_id, class_id),
        ensures
            *r.0 == old(self).extra_inventory@[chr_id - 1].battle_manual@[class_id - 1],
            final(self).extra_inventory@.len() == old(self).extra_inventory@.len(),
            final(self).extra_inventory@[chr_id - 1].battle_manual@ == old(
                self,
            ).extra_inventory@[chr_id - 1].battle_manual@.update(class_id - 1, *final(r.0)),
            forall|c: int|
                0 <= c < old(self).extra_inventory@.len() && c != chr_id - 1
                    ==> #[trigger] final(self).extra_inventory@[c] == old(self).extra_inventory@[c],
            final(self).enemypedia_0_199 == old(self).enemypedia_0_199,
            final(self).enemypedia_200_399 == old(self).enemypedia_200_399,
    {
        SlotMut(&mut self.extra_inventory[chr_id - 1].battle_manual[class_id - 1])
    }
}

} // verus!
