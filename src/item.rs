//! Inventory records: item slots, per-category slot arrays and the item
//! records of the DLCs.
use vstd::prelude::*;

use crate::codec::{
    all_well_formed, canonical_seq, changed_only, emit_at, emit_seq, lemma_at_rewrite,
    lemma_at_round_trip, lemma_emit_at_frame, lemma_emit_at_shift, lemma_emit_seq_frame,
    lemma_emit_seq_shift, lemma_parse_at_local, lemma_parse_at_shift, lemma_parse_seq_local,
    lemma_parse_seq_shift, lemma_parse_seq_well_formed, lemma_seq_rewrite, lemma_seq_round_trip,
    parse_at, parse_seq, read_seq, views, write_seq, SaveBin,
};
use crate::error::SaveError;

verus! {

pub const ITEM_ACCESSORY_MAX: usize = 1500;

pub const GEM_CATEGORY_MAX: usize = 20;

/// The number of characters that the save file has room for.
pub const CHARACTER_MAX: usize = 64;

/// An item slot in the player's inventory.
#[derive(Debug, Clone, Copy, PartialEq, Eq)]
pub struct ItemSlot {
    pub item_id: u16,
    pub slot_index: u16,
    pub item_type: u32,
    pub chronological_id: u32,
    pub amount: u16,
    pub flags: u8,
}

impl View for ItemSlot {
    type V = ItemSlot;

    open spec fn view(&self) -> ItemSlot {
        *self
    }
}

impl ItemSlot {
    /// The value whose encoding starts at the beginning of `bytes`.
    pub open spec fn parse_fields(bytes: Seq<u8>) -> ItemSlot {
        ItemSlot {
            item_id: parse_at::<u16>(bytes, 0),
            slot_index: parse_at::<u16>(bytes, 2),
            item_type: parse_at::<u32>(bytes, 4),
            chronological_id: parse_at::<u32>(bytes, 8),
            amount: parse_at::<u16>(bytes, 12),
            flags: parse_at::<u8>(bytes, 14),
        }
    }

    /// `buf` with the encoding of `v` written over its start.
    pub open spec fn emit_fields(v: ItemSlot, buf: Seq<u8>) -> Seq<u8> {
        let b1 = emit_at::<u16>(v.item_id, buf, 0);
        let b2 = emit_at::<u16>(v.slot_index, b1, 2);
        let b3 = emit_at::<u32>(v.item_type, b2, 4);
        let b4 = emit_at::<u32>(v.chronological_id, b3, 8);
        let b5 = emit_at::<u16>(v.amount, b4, 12);
        emit_at::<u8>(v.flags, b5, 14)
    }

    /// The shape of the arrays of `v`.
    pub open spec fn fields_well_formed(v: ItemSlot) -> bool {
        true
    }

    proof fn lemma_fields(v: ItemSlot, buf: Seq<u8>)
        requires
            buf.len() >= 16,
            Self::fields_well_formed(v),
        ensures
            changed_only(buf, Self::emit_fields(v, buf), 0, 16),
            Self::parse_fields(Self::emit_fields(v, buf)) == v,
    {
        let b1 = emit_at::<u16>(v.item_id, buf, 0);
        lemma_emit_at_frame::<u16>(v.item_id, buf, 0);
        let b2 = emit_at::<u16>(v.slot_index, b1, 2);
        lemma_emit_at_frame::<u16>(v.slot_index, b1, 2);
        let b3 = emit_at::<u32>(v.item_type, b2, 4);
        lemma_emit_at_frame::<u32>(v.item_type, b2, 4);
        let b4 = emit_at::<u32>(v.chronological_id, b3, 8);
        lemma_emit_at_frame::<u32>(v.chronological_id, b3, 8);
        let b5 = emit_at::<u16>(v.amount, b4, 12);
        lemma_emit_at_frame::<u16>(v.amount, b4, 12);
        let b6 = emit_at::<u8>(v.flags, b5, 14);
        lemma_emit_at_frame::<u8>(v.flags, b5, 14);
        assert(b6 == Self::emit_fields(v, buf));
        {
            lemma_at_round_trip::<u16>(v.item_id, buf, 0);
            lemma_parse_at_local::<u16>(b6, b1, 0);
            lemma_at_round_trip::<u16>(v.slot_index, b1, 2);
            lemma_parse_at_local::<u16>(b6, b2, 2);
            lemma_at_round_trip::<u32>(v.item_type, b2, 4);
            lemma_parse_at_local::<u32>(b6, b3, 4);
            lemma_at_round_trip::<u32>(v.chronological_id, b3, 8);
            lemma_parse_at_local::<u32>(b6, b4, 8);
            lemma_at_round_trip::<u16>(v.amount, b4, 12);
            lemma_parse_at_local::<u16>(b6, b5, 12);
            lemma_at_round_trip::<u8>(v.flags, b5, 14);
            assert(Self::parse_fields(b6) == v);
        }
    }
}

impl SaveBin for ItemSlot {
    open spec fn byte_size() -> nat {
        16
    }

    open spec fn well_formed(v: ItemSlot) -> bool {
        Self::fields_well_formed(v)
    }

    open spec fn parse(bytes: Seq<u8>) -> ItemSlot {
        Self::parse_fields(bytes)
    }

    open spec fn emit(v: ItemSlot, buf: Seq<u8>) -> Seq<u8> {
        Self::emit_fields(v, buf)
    }

    open spec fn check(v: ItemSlot) -> Result<(), SaveError> {
        Ok(())
    }

    open spec fn canonical(bytes: Seq<u8>) -> bool {
        &&& u16::canonical(bytes.skip(0))
        &&& u16::canonical(bytes.skip(2))
        &&& u32::canonical(bytes.skip(4))
        &&& u32::canonical(bytes.skip(8))
        &&& u16::canonical(bytes.skip(12))
        &&& u8::canonical(bytes.skip(14))
    }

    proof fn lemma_rewrite(bytes: Seq<u8>) {
        let v = Self::parse_fields(bytes);
        lemma_at_rewrite::<u16>(bytes, 0);
        lemma_at_rewrite::<u16>(bytes, 2);
        lemma_at_rewrite::<u32>(bytes, 4);
        lemma_at_rewrite::<u32>(bytes, 8);
        lemma_at_rewrite::<u16>(bytes, 12);
        lemma_at_rewrite::<u8>(bytes, 14);
    }

    proof fn lemma_parse_well_formed(bytes: Seq<u8>) {
    }

    proof fn lemma_emit_frame(v: ItemSlot, buf: Seq<u8>) {
        Self::lemma_fields(v, buf);
    }

    proof fn lemma_parse_local(a: Seq<u8>, b: Seq<u8>) {
        lemma_parse_at_local::<u16>(a, b, 0);
        lemma_parse_at_local::<u16>(a, b, 2);
        lemma_parse_at_local::<u32>(a, b, 4);
        lemma_parse_at_local::<u32>(a, b, 8);
        lemma_parse_at_local::<u16>(a, b, 12);
        lemma_parse_at_local::<u8>(a, b, 14);
    }

    proof fn lemma_round_trip(v: ItemSlot, buf: Seq<u8>) {
        Self::lemma_fields(v, buf);
    }

    fn size() -> (r: usize) {
        16
    }

    fn read_at(bytes: &[u8], off: usize) -> (r: ItemSlot) {
        let _ = bytes.len();
        proof {
            lemma_parse_at_shift::<u16>(bytes@, off as int, 0);
            lemma_parse_at_shift::<u16>(bytes@, off as int, 2);
            lemma_parse_at_shift::<u32>(bytes@, off as int, 4);
            lemma_parse_at_shift::<u32>(bytes@, off as int, 8);
            lemma_parse_at_shift::<u16>(bytes@, off as int, 12);
            lemma_parse_at_shift::<u8>(bytes@, off as int, 14);
        }
        ItemSlot {
            item_id: u16::read_at(bytes, off),
            slot_index: u16::read_at(bytes, off + 2),
            item_type: u32::read_at(bytes, off + 4),
            chronological_id: u32::read_at(bytes, off + 8),
            amount: u16::read_at(bytes, off + 12),
            flags: u8::read_at(bytes, off + 14),
        }
    }

    fn write_at(&self, bytes: &mut [u8], off: usize) {
        let ghost b = old(bytes)@;
        let _ = bytes.len();
        let ghost a0 = bytes@;
        self.item_id.write_at(bytes, off);
        proof {
            lemma_emit_at_frame::<u16>(self@.item_id, a0, (off) as int);
        }
        let ghost a1 = bytes@;
        self.slot_index.write_at(bytes, off + 2);
        proof {
            lemma_emit_at_frame::<u16>(self@.slot_index, a1, (off + 2) as int);
        }
        let ghost a2 = bytes@;
        self.item_type.write_at(bytes, off + 4);
        proof {
            lemma_emit_at_frame::<u32>(self@.item_type, a2, (off + 4) as int);
        }
        let ghost a3 = bytes@;
        self.chronological_id.write_at(bytes, off + 8);
        proof {
            lemma_emit_at_frame::<u32>(self@.chronological_id, a3, (off + 8) as int);
        }
        let ghost a4 = bytes@;
        self.amount.write_at(bytes, off + 12);
        proof {
            lemma_emit_at_frame::<u16>(self@.amount, a4, (off + 12) as int);
        }
        let ghost a5 = bytes@;
        self.flags.write_at(bytes, off + 14);
        proof {
            let p = b.take(off as int);
            let s0 = b.skip(off as int);
            assert(b =~= p + s0);
            lemma_emit_at_shift::<u16>(self@.item_id, p, s0, 0);
            let s1 = emit_at::<u16>(self@.item_id, s0, 0);
            lemma_emit_at_frame::<u16>(self@.item_id, s0, 0);
            lemma_emit_at_shift::<u16>(self@.slot_index, p, s1, 2);
            let s2 = emit_at::<u16>(self@.slot_index, s1, 2);
            lemma_emit_at_frame::<u16>(self@.slot_index, s1, 2);
            lemma_emit_at_shift::<u32>(self@.item_type, p, s2, 4);
            let s3 = emit_at::<u32>(self@.item_type, s2, 4);
            lemma_emit_at_frame::<u32>(self@.item_type, s2, 4);
            lemma_emit_at_shift::<u32>(self@.chronological_id, p, s3, 8);
            let s4 = emit_at::<u32>(self@.chronological_id, s3, 8);
            lemma_emit_at_frame::<u32>(self@.chronological_id, s3, 8);
            lemma_emit_at_shift::<u16>(self@.amount, p, s4, 12);
            let s5 = emit_at::<u16>(self@.amount, s4, 12);
            lemma_emit_at_frame::<u16>(self@.amount, s4, 12);
            lemma_emit_at_shift::<u8>(self@.flags, p, s5, 14);
        }
    }

    fn validate(&self) -> (r: Result<(), SaveError>) {
        Ok(())
    }
}

/// A battle manual slot of the fourth DLC.
#[derive(Debug, Clone, Copy, PartialEq, Eq)]
pub struct DlcManualSlot {
    pub item_id: u16,
    pub inventory_slot_index: u16,
    pub item_type: u16,
}

impl View for DlcManualSlot {
    type V = DlcManualSlot;

    open spec fn view(&self) -> DlcManualSlot {
        *self
    }
}

impl DlcManualSlot {
    /// The value whose encoding starts at the beginning of `bytes`.
    pub open spec fn parse_fields(bytes: Seq<u8>) -> DlcManualSlot {
        DlcManualSlot {
            item_id: parse_at::<u16>(bytes, 0),
            inventory_slot_index: parse_at::<u16>(bytes, 2),
            item_type: parse_at::<u16>(bytes, 4),
        }
    }

    /// `buf` with the encoding of `v` written over its start.
    pub open spec fn emit_fields(v: DlcManualSlot, buf: Seq<u8>) -> Seq<u8> {
        let b1 = emit_at::<u16>(v.item_id, buf, 0);
        let b2 = emit_at::<u16>(v.inventory_slot_index, b1, 2);
        emit_at::<u16>(v.item_type, b2, 4)
    }

    /// The shape of the arrays of `v`.
    pub open spec fn fields_well_formed(v: DlcManualSlot) -> bool {
        true
    }

    proof fn lemma_fields(v: DlcManualSlot, buf: Seq<u8>)
        requires
            buf.len() >= 6,
            Self::fields_well_formed(v),
        ensures
            changed_only(buf, Self::emit_fields(v, buf), 0, 6),
            Self::parse_fields(Self::emit_fields(v, buf)) == v,
    {
        let b1 = emit_at::<u16>(v.item_id, buf, 0);
        lemma_emit_at_frame::<u16>(v.item_id, buf, 0);
        let b2 = emit_at::<u16>(v.inventory_slot_index, b1, 2);
        lemma_emit_at_frame::<u16>(v.inventory_slot_index, b1, 2);
        let b3 = emit_at::<u16>(v.item_type, b2, 4);
        lemma_emit_at_frame::<u16>(v.item_type, b2, 4);
        assert(b3 == Self::emit_fields(v, buf));
        {
            lemma_at_round_trip::<u16>(v.item_id, buf, 0);
            lemma_parse_at_local::<u16>(b3, b1, 0);
            lemma_at_round_trip::<u16>(v.inventory_slot_index, b1, 2);
            lemma_parse_at_local::<u16>(b3, b2, 2);
            lemma_at_round_trip::<u16>(v.item_type, b2, 4);
            assert(Self::parse_fields(b3) == v);
        }
    }
}

impl SaveBin for DlcManualSlot {
    open spec fn byte_size() -> nat {
        6
    }

    open spec fn well_formed(v: DlcManualSlot) -> bool {
        Self::fields_well_formed(v)
    }

    open spec fn parse(bytes: Seq<u8>) -> DlcManualSlot {
        Self::parse_fields(bytes)
    }

    open spec fn emit(v: DlcManualSlot, buf: Seq<u8>) -> Seq<u8> {
        Self::emit_fields(v, buf)
    }

    open spec fn check(v: DlcManualSlot) -> Result<(), SaveError> {
        Ok(())
    }

    open spec fn canonical(bytes: Seq<u8>) -> bool {
        &&& u16::canonical(bytes.skip(0))
        &&& u16::canonical(bytes.skip(2))
        &&& u16::canonical(bytes.skip(4))
    }

    proof fn lemma_rewrite(bytes: Seq<u8>) {
        let v = Self::parse_fields(bytes);
        lemma_at_rewrite::<u16>(bytes, 0);
        lemma_at_rewrite::<u16>(bytes, 2);
        lemma_at_rewrite::<u16>(bytes, 4);
    }

    proof fn lemma_parse_well_formed(bytes: Seq<u8>) {
    }

    proof fn lemma_emit_frame(v: DlcManualSlot, buf: Seq<u8>) {
        Self::lemma_fields(v, buf);
    }

    proof fn lemma_parse_local(a: Seq<u8>, b: Seq<u8>) {
        lemma_parse_at_local::<u16>(a, b, 0);
        lemma_parse_at_local::<u16>(a, b, 2);
        lemma_parse_at_local::<u16>(a, b, 4);
    }

    proof fn lemma_round_trip(v: DlcManualSlot, buf: Seq<u8>) {
        Self::lemma_fields(v, buf);
    }

    fn size() -> (r: usize) {
        6
    }

    fn read_at(bytes: &[u8], off: usize) -> (r: DlcManualSlot) {
        let _ = bytes.len();
        proof {
            lemma_parse_at_shift::<u16>(bytes@, off as int, 0);
            lemma_parse_at_shift::<u16>(bytes@, off as int, 2);
            lemma_parse_at_shift::<u16>(bytes@, off as int, 4);
        }
        DlcManualSlot {
            item_id: u16::read_at(bytes, off),
            inventory_slot_index: u16::read_at(bytes, off + 2),
            item_type: u16::read_at(bytes, off + 4),
        }
    }

    fn write_at(&self, bytes: &mut [u8], off: usize) {
        let ghost b = old(bytes)@;
        let _ = bytes.len();
        let ghost a0 = bytes@;
        self.item_id.write_at(bytes, off);
        proof {
            lemma_emit_at_frame::<u16>(self@.item_id, a0, (off) as int);
        }
        let ghost a1 = bytes@;
        self.inventory_slot_index.write_at(bytes, off + 2);
        proof {
            lemma_emit_at_frame::<u16>(self@.inventory_slot_index, a1, (off + 2) as int);
        }
        let ghost a2 = bytes@;
        self.item_type.write_at(bytes, off + 4);
        proof {
            let p = b.take(off as int);
            let s0 = b.skip(off as int);
            assert(b =~= p + s0);
            lemma_emit_at_shift::<u16>(self@.item_id, p, s0, 0);
            let s1 = emit_at::<u16>(self@.item_id, s0, 0);
            lemma_emit_at_frame::<u16>(self@.item_id, s0, 0);
            lemma_emit_at_shift::<u16>(self@.inventory_slot_index, p, s1, 2);
            let s2 = emit_at::<u16>(self@.inventory_slot_index, s1, 2);
            lemma_emit_at_frame::<u16>(self@.inventory_slot_index, s1, 2);
            lemma_emit_at_shift::<u16>(self@.item_type, p, s2, 4);
        }
    }

    fn validate(&self) -> (r: Result<(), SaveError>) {
        Ok(())
    }
}

/// Highest levels the player has unlocked for each gem category, as item IDs.
///
/// The library cannot update this when items change: that needs the game
/// data's ID ranges of each gem category.
#[derive(Debug, Clone, PartialEq, Eq)]
pub struct GemLevels {
    /// Gem item IDs (12000+) for each category.
    pub item_ids: Vec<u16>,
}

/// The content of a [`GemLevels`], with its arrays as sequences.
pub struct GemLevelsModel {
    pub item_ids: Seq<u16>,
}

impl View for GemLevels {
    type V = GemLevelsModel;

    open spec fn view(&self) -> GemLevelsModel {
        GemLevelsModel {
            item_ids: views(self.item_ids@),
        }
    }
}

impl GemLevels {
    /// The value whose encoding starts at the beginning of `bytes`.
    pub open spec fn parse_fields(bytes: Seq<u8>) -> GemLevelsModel {
        GemLevelsModel {
            item_ids: parse_seq::<u16>(bytes, 0, GEM_CATEGORY_MAX as nat),
        }
    }

    /// `buf` with the encoding of `v` written over its start.
    pub open spec fn emit_fields(v: GemLevelsModel, buf: Seq<u8>) -> Seq<u8> {
        emit_seq::<u16>(v.item_ids, buf, 0)
    }

    /// The shape of the arrays of `v`.
    pub open spec fn fields_well_formed(v: GemLevelsModel) -> bool {
        &&& v.item_ids.len() == GEM_CATEGORY_MAX
        &&& all_well_formed::<u16>(v.item_ids)
    }

    proof fn lemma_fields(v: GemLevelsModel, buf: Seq<u8>)
        requires
            buf.len() >= 40,
            Self::fields_well_formed(v),
        ensures
            changed_only(buf, Self::emit_fields(v, buf), 0, 40),
            Self::parse_fields(Self::emit_fields(v, buf)) == v,
    {
        let b1 = emit_seq::<u16>(v.item_ids, buf, 0);
        lemma_emit_seq_frame::<u16>(v.item_ids, buf, 0);
        assert(b1 == Self::emit_fields(v, buf));
        {
            lemma_seq_round_trip::<u16>(v.item_ids, buf, 0);
            assert(Self::parse_fields(b1) == v);
        }
    }
}

impl SaveBin for GemLevels {
    open spec fn byte_size() -> nat {
        40
    }

    open spec fn well_formed(v: GemLevelsModel) -> bool {
        Self::fields_well_formed(v)
    }

    open spec fn parse(bytes: Seq<u8>) -> GemLevelsModel {
        Self::parse_fields(bytes)
    }

    open spec fn emit(v: GemLevelsModel, buf: Seq<u8>) -> Seq<u8> {
        Self::emit_fields(v, buf)
    }

    open spec fn check(v: GemLevelsModel) -> Result<(), SaveError> {
        Ok(())
    }

    open spec fn canonical(bytes: Seq<u8>) -> bool {
        canonical_seq::<u16>(bytes, 0, GEM_CATEGORY_MAX as nat)
    }

    proof fn lemma_rewrite(bytes: Seq<u8>) {
        let v = Self::parse_fields(bytes);
        lemma_seq_rewrite::<u16>(bytes, 0, GEM_CATEGORY_MAX as nat);
    }

    proof fn lemma_parse_well_formed(bytes: Seq<u8>) {
        lemma_parse_seq_well_formed::<u16>(bytes, 0, GEM_CATEGORY_MAX as nat);
    }

    proof fn lemma_emit_frame(v: GemLevelsModel, buf: Seq<u8>) {
        Self::lemma_fields(v, buf);
    }

    proof fn lemma_parse_local(a: Seq<u8>, b: Seq<u8>) {
        lemma_parse_seq_local::<u16>(a, b, 0, GEM_CATEGORY_MAX as nat);
    }

    proof fn lemma_round_trip(v: GemLevelsModel, buf: Seq<u8>) {
        Self::lemma_fields(v, buf);
    }

    fn size() -> (r: usize) {
        40
    }

    fn read_at(bytes: &[u8], off: usize) -> (r: GemLevels) {
        let _ = bytes.len();
        proof {
            lemma_parse_seq_shift::<u16>(bytes@, off as int, 0, GEM_CATEGORY_MAX as nat);
        }
        GemLevels {
            item_ids: read_seq::<u16>(bytes, off, GEM_CATEGORY_MAX),
        }
    }

    fn write_at(&self, bytes: &mut [u8], off: usize) {
        let ghost b = old(bytes)@;
        let _ = bytes.len();
        let ghost a0 = bytes@;
        write_seq(&self.item_ids, bytes, off);
        proof {
            let p = b.take(off as int);
            let s0 = b.skip(off as int);
            assert(b =~= p + s0);
            lemma_emit_seq_shift::<u16>(self@.item_ids, p, s0, 0);
        }
    }

    fn validate(&self) -> (r: Result<(), SaveError>) {
        Ok(())
    }
}

/// See [`LegacyForge`].
#[derive(Debug, Clone, Copy, PartialEq, Eq)]
pub struct LegacyForgeData {
    pub enhance_id: u16,
    pub valid: bool,
}

impl View for LegacyForgeData {
    type V = LegacyForgeData;

    open spec fn view(&self) -> LegacyForgeData {
        *self
    }
}

impl LegacyForgeData {
    /// The value whose encoding starts at the beginning of `bytes`.
    pub open spec fn parse_fields(bytes: Seq<u8>) -> LegacyForgeData {
        LegacyForgeData {
            enhance_id: parse_at::<u16>(bytes, 0),
            valid: parse_at::<bool>(bytes, 2),
        }
    }

    /// `buf` with the encoding of `v` written over its start.
    pub open spec fn emit_fields(v: LegacyForgeData, buf: Seq<u8>) -> Seq<u8> {
        let b1 = emit_at::<u16>(v.enhance_id, buf, 0);
        emit_at::<bool>(v.valid, b1, 2)
    }

    /// The shape of the arrays of `v`.
    pub open spec fn fields_well_formed(v: LegacyForgeData) -> bool {
        true
    }

    proof fn lemma_fields(v: LegacyForgeData, buf: Seq<u8>)
        requires
            buf.len() >= 4,
            Self::fields_well_formed(v),
        ensures
            changed_only(buf, Self::emit_fields(v, buf), 0, 4),
            Self::parse_fields(Self::emit_fields(v, buf)) == v,
    {
        let b1 = emit_at::<u16>(v.enhance_id, buf, 0);
        lemma_emit_at_frame::<u16>(v.enhance_id, buf, 0);
        let b2 = emit_at::<bool>(v.valid, b1, 2);
        lemma_emit_at_frame::<bool>(v.valid, b1, 2);
        assert(b2 == Self::emit_fields(v, buf));
        {
            lemma_at_round_trip::<u16>(v.enhance_id, buf, 0);
            lemma_parse_at_local::<u16>(b2, b1, 0);
            lemma_at_round_trip::<bool>(v.valid, b1, 2);
            assert(Self::parse_fields(b2) == v);
        }
    }
}

impl SaveBin for LegacyForgeData {
    open spec fn byte_size() -> nat {
        4
    }

    open spec fn well_formed(v: LegacyForgeData) -> bool {
        Self::fields_well_formed(v)
    }

    open spec fn parse(bytes: Seq<u8>) -> LegacyForgeData {
        Self::parse_fields(bytes)
    }

    open spec fn emit(v: LegacyForgeData, buf: Seq<u8>) -> Seq<u8> {
        Self::emit_fields(v, buf)
    }

    open spec fn check(v: LegacyForgeData) -> Result<(), SaveError> {
        Ok(())
    }

    open spec fn canonical(bytes: Seq<u8>) -> bool {
        &&& u16::canonical(bytes.skip(0))
        &&& bool::canonical(bytes.skip(2))
    }

    proof fn lemma_rewrite(bytes: Seq<u8>) {
        let v = Self::parse_fields(bytes);
        lemma_at_rewrite::<u16>(bytes, 0);
        lemma_at_rewrite::<bool>(bytes, 2);
    }

    proof fn lemma_parse_well_formed(bytes: Seq<u8>) {
    }

    proof fn lemma_emit_frame(v: LegacyForgeData, buf: Seq<u8>) {
        Self::lemma_fields(v, buf);
    }

    proof fn lemma_parse_local(a: Seq<u8>, b: Seq<u8>) {
        lemma_parse_at_local::<u16>(a, b, 0);
        lemma_parse_at_local::<bool>(a, b, 2);
    }

    proof fn lemma_round_trip(v: LegacyForgeData, buf: Seq<u8>) {
        Self::lemma_fields(v, buf);
    }

    fn size() -> (r: usize) {
        4
    }

    fn read_at(bytes: &[u8], off: usize) -> (r: LegacyForgeData) {
        let _ = bytes.len();
        proof {
            lemma_parse_at_shift::<u16>(bytes@, off as int, 0);
            lemma_parse_at_shift::<bool>(bytes@, off as int, 2);
        }
        LegacyForgeData {
            enhance_id: u16::read_at(bytes, off),
            valid: bool::read_at(bytes, off + 2),
        }
    }

    fn write_at(&self, bytes: &mut [u8], off: usize) {
        let ghost b = old(bytes)@;
        let _ = bytes.len();
        let ghost a0 = bytes@;
        self.enhance_id.write_at(bytes, off);
        proof {
            lemma_emit_at_frame::<u16>(self@.enhance_id, a0, (off) as int);
        }
        let ghost a1 = bytes@;
        self.valid.write_at(bytes, off + 2);
        proof {
            let p = b.take(off as int);
            let s0 = b.skip(off as int);
            assert(b =~= p + s0);
            lemma_emit_at_shift::<u16>(self@.enhance_id, p, s0, 0);
            let s1 = emit_at::<u16>(self@.enhance_id, s0, 0);
            lemma_emit_at_frame::<u16>(self@.enhance_id, s0, 0);
            lemma_emit_at_shift::<bool>(self@.valid, p, s1, 2);
        }
    }

    fn validate(&self) -> (r: Result<(), SaveError>) {
        Ok(())
    }
}

/// Forged accessory data of a removed feature.
///
/// The data still lingers in the latest version of the format. It is not to be
/// confused with the crafted accessories of the third DLC.
#[derive(Debug, Clone, PartialEq, Eq)]
pub struct LegacyForge {
    /// One entry per character (ID - 1).
    pub data: Vec<LegacyForgeData>,
}

/// The content of a [`LegacyForge`], with its arrays as sequences.
pub struct LegacyForgeModel {
    pub data: Seq<LegacyForgeData>,
}

impl View for LegacyForge {
    type V = LegacyForgeModel;

    open spec fn view(&self) -> LegacyForgeModel {
        LegacyForgeModel {
            data: views(self.data@),
        }
    }
}

impl LegacyForge {
    /// The value whose encoding starts at the beginning of `bytes`.
    pub open spec fn parse_fields(bytes: Seq<u8>) -> LegacyForgeModel {
        LegacyForgeModel {
            data: parse_seq::<LegacyForgeData>(bytes, 0, CHARACTER_MAX as nat),
        }
    }

    /// `buf` with the encoding of `v` written over its start.
    pub open spec fn emit_fields(v: LegacyForgeModel, buf: Seq<u8>) -> Seq<u8> {
        emit_seq::<LegacyForgeData>(v.data, buf, 0)
    }

    /// The shape of the arrays of `v`.
    pub open spec fn fields_well_formed(v: LegacyForgeModel) -> bool {
        &&& v.data.len() == CHARACTER_MAX
        &&& all_well_formed::<LegacyForgeData>(v.data)
    }

    proof fn lemma_fields(v: LegacyForgeModel, buf: Seq<u8>)
        requires
            buf.len() >= 256,
            Self::fields_well_formed(v),
        ensures
            changed_only(buf, Self::emit_fields(v, buf), 0, 256),
            Self::parse_fields(Self::emit_fields(v, buf)) == v,
    {
        let b1 = emit_seq::<LegacyForgeData>(v.data, buf, 0);
        lemma_emit_seq_frame::<LegacyForgeData>(v.data, buf, 0);
        assert(b1 == Self::emit_fields(v, buf));
        {
            lemma_seq_round_trip::<LegacyForgeData>(v.data, buf, 0);
            assert(Self::parse_fields(b1) == v);
        }
    }
}

impl SaveBin for LegacyForge {
    open spec fn byte_size() -> nat {
        256
    }

    open spec fn well_formed(v: LegacyForgeModel) -> bool {
        Self::fields_well_formed(v)
    }

    open spec fn parse(bytes: Seq<u8>) -> LegacyForgeModel {
        Self::parse_fields(bytes)
    }

    open spec fn emit(v: LegacyForgeModel, buf: Seq<u8>) -> Seq<u8> {
        Self::emit_fields(v, buf)
    }

    open spec fn check(v: LegacyForgeModel) -> Result<(), SaveError> {
        Ok(())
    }

    open spec fn canonical(bytes: Seq<u8>) -> bool {
        canonical_seq::<LegacyForgeData>(bytes, 0, CHARACTER_MAX as nat)
    }

    proof fn lemma_rewrite(bytes: Seq<u8>) {
        let v = Self::parse_fields(bytes);
        lemma_seq_rewrite::<LegacyForgeData>(bytes, 0, CHARACTER_MAX as nat);
    }

    proof fn lemma_parse_well_formed(bytes: Seq<u8>) {
        lemma_parse_seq_well_formed::<LegacyForgeData>(bytes, 0, CHARACTER_MAX as nat);
    }

    proof fn lemma_emit_frame(v: LegacyForgeModel, buf: Seq<u8>) {
        Self::lemma_fields(v, buf);
    }

    proof fn lemma_parse_local(a: Seq<u8>, b: Seq<u8>) {
        lemma_parse_seq_local::<LegacyForgeData>(a, b, 0, CHARACTER_MAX as nat);
    }

    proof fn lemma_round_trip(v: LegacyForgeModel, buf: Seq<u8>) {
        Self::lemma_fields(v, buf);
    }

    fn size() -> (r: usize) {
        256
    }

    fn read_at(bytes: &[u8], off: usize) -> (r: LegacyForge) {
        let _ = bytes.len();
        proof {
            lemma_parse_seq_shift::<LegacyForgeData>(bytes@, off as int, 0, CHARACTER_MAX as nat);
        }
        LegacyForge {
            data: read_seq::<LegacyForgeData>(bytes, off, CHARACTER_MAX),
        }
    }

    fn write_at(&self, bytes: &mut [u8], off: usize) {
        let ghost b = old(bytes)@;
        let _ = bytes.len();
        let ghost a0 = bytes@;
        write_seq(&self.data, bytes, off);
        proof {
            let p = b.take(off as int);
            let s0 = b.skip(off as int);
            assert(b =~= p + s0);
            lemma_emit_seq_shift::<LegacyForgeData>(self@.data, p, s0, 0);
        }
    }

    fn validate(&self) -> (r: Result<(), SaveError>) {
        Ok(())
    }
}

/// The player's inventory: one array of item slots per item category.
#[derive(Debug, Clone, PartialEq, Eq)]
pub struct Inventory {
    /// The highest acquisition rank given to an item so far.
    pub chronological_id_max: u32,
    /// `ITM_Cylinder`
    pub cylinders: Vec<ItemSlot>,
    /// `ITM_Gem`
    pub gems: Vec<ItemSlot>,
    /// `ITM_Collection`
    pub collectibles: Vec<ItemSlot>,
    /// `ITM_Info`, discussion info dialogues
    pub infos: Vec<ItemSlot>,
    /// `ITM_Accessory`
    pub accessories: Vec<ItemSlot>,
    /// `ITM_Precious`
    pub key_items: Vec<ItemSlot>,
    /// `ITM_Exchange` (unused item type)
    pub exchange: Vec<ItemSlot>,
    /// `ITM_Extra`
    pub extra: Vec<ItemSlot>,
}

/// The content of a [`Inventory`], with its arrays as sequences.
pub struct InventoryModel {
    pub chronological_id_max: u32,
    pub cylinders: Seq<ItemSlot>,
    pub gems: Seq<ItemSlot>,
    pub collectibles: Seq<ItemSlot>,
    pub infos: Seq<ItemSlot>,
    pub accessories: Seq<ItemSlot>,
    pub key_items: Seq<ItemSlot>,
    pub exchange: Seq<ItemSlot>,
    pub extra: Seq<ItemSlot>,
}

impl View for Inventory {
    type V = InventoryModel;

    open spec fn view(&self) -> InventoryModel {
        InventoryModel {
            chronological_id_max: self.chronological_id_max,
            cylinders: views(self.cylinders@),
            gems: views(self.gems@),
            collectibles: views(self.collectibles@),
            infos: views(self.infos@),
            accessories: views(self.accessories@),
            key_items: views(self.key_items@),
            exchange: views(self.exchange@),
            extra: views(self.extra@),
        }
    }
}

impl Inventory {
    /// The value whose encoding starts at the beginning of `bytes`.
    pub open spec fn parse_fields(bytes: Seq<u8>) -> InventoryModel {
        InventoryModel {
            chronological_id_max: parse_at::<u32>(bytes, 0),
            cylinders: parse_seq::<ItemSlot>(bytes, 40, 16 as nat),
            gems: parse_seq::<ItemSlot>(bytes, 296, 300 as nat),
            collectibles: parse_seq::<ItemSlot>(bytes, 5096, 1500 as nat),
            infos: parse_seq::<ItemSlot>(bytes, 29096, 800 as nat),
            accessories: parse_seq::<ItemSlot>(bytes, 41896, ITEM_ACCESSORY_MAX as nat),
            key_items: parse_seq::<ItemSlot>(bytes, 65896, 200 as nat),
            exchange: parse_seq::<ItemSlot>(bytes, 69096, 16 as nat),
            extra: parse_seq::<ItemSlot>(bytes, 69352, 64 as nat),
        }
    }

    /// `buf` with the encoding of `v` written over its start.
    pub open spec fn emit_fields(v: InventoryModel, buf: Seq<u8>) -> Seq<u8> {
        let b1 = emit_at::<u32>(v.chronological_id_max, buf, 0);
        let b2 = emit_seq::<ItemSlot>(v.cylinders, b1, 40);
        let b3 = emit_seq::<ItemSlot>(v.gems, b2, 296);
        let b4 = emit_seq::<ItemSlot>(v.collectibles, b3, 5096);
        let b5 = emit_seq::<ItemSlot>(v.infos, b4, 29096);
        let b6 = emit_seq::<ItemSlot>(v.accessories, b5, 41896);
        let b7 = emit_seq::<ItemSlot>(v.key_items, b6, 65896);
        let b8 = emit_seq::<ItemSlot>(v.exchange, b7, 69096);
        emit_seq::<ItemSlot>(v.extra, b8, 69352)
    }

    /// The shape of the arrays of `v`.
    pub open spec fn fields_well_formed(v: InventoryModel) -> bool {
        &&& v.cylinders.len() == 16
        &&& all_well_formed::<ItemSlot>(v.cylinders)
        &&& v.gems.len() == 300
        &&& all_well_formed::<ItemSlot>(v.gems)
        &&& v.collectibles.len() == 1500
        &&& all_well_formed::<ItemSlot>(v.collectibles)
        &&& v.infos.len() == 800
        &&& all_well_formed::<ItemSlot>(v.infos)
        &&& v.accessories.len() == ITEM_ACCESSORY_MAX
        &&& all_well_formed::<ItemSlot>(v.accessories)
        &&& v.key_items.len() == 200
        &&& all_well_formed::<ItemSlot>(v.key_items)
        &&& v.exchange.len() == 16
        &&& all_well_formed::<ItemSlot>(v.exchange)
        &&& v.extra.len() == 64
        &&& all_well_formed::<ItemSlot>(v.extra)
    }

    #[verifier::spinoff_prover]
    #[verifier::rlimit(80)]
    proof fn lemma_fields(v: InventoryModel, buf: Seq<u8>)
        requires
            buf.len() >= 70376,
            Self::fields_well_formed(v),
        ensures
            changed_only(buf, Self::emit_fields(v, buf), 0, 70376),
            Self::parse_fields(Self::emit_fields(v, buf)) == v,
    {
        let b1 = emit_at::<u32>(v.chronological_id_max, buf, 0);
        lemma_emit_at_frame::<u32>(v.chronological_id_max, buf, 0);
        let b2 = emit_seq::<ItemSlot>(v.cylinders, b1, 40);
        lemma_emit_seq_frame::<ItemSlot>(v.cylinders, b1, 40);
        let b3 = emit_seq::<ItemSlot>(v.gems, b2, 296);
        lemma_emit_seq_frame::<ItemSlot>(v.gems, b2, 296);
        let b4 = emit_seq::<ItemSlot>(v.collectibles, b3, 5096);
        lemma_emit_seq_frame::<ItemSlot>(v.collectibles, b3, 5096);
        let b5 = emit_seq::<ItemSlot>(v.infos, b4, 29096);
        lemma_emit_seq_frame::<ItemSlot>(v.infos, b4, 29096);
        let b6 = emit_seq::<ItemSlot>(v.accessories, b5, 41896);
        lemma_emit_seq_frame::<ItemSlot>(v.accessories, b5, 41896);
        let b7 = emit_seq::<ItemSlot>(v.key_items, b6, 65896);
        lemma_emit_seq_frame::<ItemSlot>(v.key_items, b6, 65896);
        let b8 = emit_seq::<ItemSlot>(v.exchange, b7, 69096);
        lemma_emit_seq_frame::<ItemSlot>(v.exchange, b7, 69096);
        let b9 = emit_seq::<ItemSlot>(v.extra, b8, 69352);
        lemma_emit_seq_frame::<ItemSlot>(v.extra, b8, 69352);
        assert(b9 == Self::emit_fields(v, buf));
        {
            lemma_at_round_trip::<u32>(v.chronological_id_max, buf, 0);
            lemma_parse_at_local::<u32>(b9, b1, 0);
            lemma_seq_round_trip::<ItemSlot>(v.cylinders, b1, 40);
            lemma_parse_seq_local::<ItemSlot>(b9, b2, 40, 16 as nat);
            lemma_seq_round_trip::<ItemSlot>(v.gems, b2, 296);
            lemma_parse_seq_local::<ItemSlot>(b9, b3, 296, 300 as nat);
            lemma_seq_round_trip::<ItemSlot>(v.collectibles, b3, 5096);
            lemma_parse_seq_local::<ItemSlot>(b9, b4, 5096, 1500 as nat);
            lemma_seq_round_trip::<ItemSlot>(v.infos, b4, 29096);
            lemma_parse_seq_local::<ItemSlot>(b9, b5, 29096, 800 as nat);
            lemma_seq_round_trip::<ItemSlot>(v.accessories, b5, 41896);
            lemma_parse_seq_local::<ItemSlot>(b9, b6, 41896, ITEM_ACCESSORY_MAX as nat);
            lemma_seq_round_trip::<ItemSlot>(v.key_items, b6, 65896);
            lemma_parse_seq_local::<ItemSlot>(b9, b7, 65896, 200 as nat);
            lemma_seq_round_trip::<ItemSlot>(v.exchange, b7, 69096);
            lemma_parse_seq_local::<ItemSlot>(b9, b8, 69096, 16 as nat);
            lemma_seq_round_trip::<ItemSlot>(v.extra, b8, 69352);
            assert(Self::parse_fields(b9) == v);
        }
    }
}

impl SaveBin for Inventory {
    open spec fn byte_size() -> nat {
        70376
    }

    open spec fn well_formed(v: InventoryModel) -> bool {
        Self::fields_well_formed(v)
    }

    open spec fn parse(bytes: Seq<u8>) -> InventoryModel {
        Self::parse_fields(bytes)
    }

    open spec fn emit(v: InventoryModel, buf: Seq<u8>) -> Seq<u8> {
        Self::emit_fields(v, buf)
    }

    open spec fn check(v: InventoryModel) -> Result<(), SaveError> {
        Ok(())
    }

    open spec fn canonical(bytes: Seq<u8>) -> bool {
        &&& u32::canonical(bytes.skip(0))
        &&& canonical_seq::<ItemSlot>(bytes, 40, 16 as nat)
        &&& canonical_seq::<ItemSlot>(bytes, 296, 300 as nat)
        &&& canonical_seq::<ItemSlot>(bytes, 5096, 1500 as nat)
        &&& canonical_seq::<ItemSlot>(bytes, 29096, 800 as nat)
        &&& canonical_seq::<ItemSlot>(bytes, 41896, ITEM_ACCESSORY_MAX as nat)
        &&& canonical_seq::<ItemSlot>(bytes, 65896, 200 as nat)
        &&& canonical_seq::<ItemSlot>(bytes, 69096, 16 as nat)
        &&& canonical_seq::<ItemSlot>(bytes, 69352, 64 as nat)
    }

    proof fn lemma_rewrite(bytes: Seq<u8>) {
        let v = Self::parse_fields(bytes);
        lemma_at_rewrite::<u32>(bytes, 0);
        lemma_seq_rewrite::<ItemSlot>(bytes, 40, 16 as nat);
        lemma_seq_rewrite::<ItemSlot>(bytes, 296, 300 as nat);
        lemma_seq_rewrite::<ItemSlot>(bytes, 5096, 1500 as nat);
        lemma_seq_rewrite::<ItemSlot>(bytes, 29096, 800 as nat);
        lemma_seq_rewrite::<ItemSlot>(bytes, 41896, ITEM_ACCESSORY_MAX as nat);
        lemma_seq_rewrite::<ItemSlot>(bytes, 65896, 200 as nat);
        lemma_seq_rewrite::<ItemSlot>(bytes, 69096, 16 as nat);
        lemma_seq_rewrite::<ItemSlot>(bytes, 69352, 64 as nat);
    }

    proof fn lemma_parse_well_formed(bytes: Seq<u8>) {
        lemma_parse_seq_well_formed::<ItemSlot>(bytes, 40, 16 as nat);
        lemma_parse_seq_well_formed::<ItemSlot>(bytes, 296, 300 as nat);
        lemma_parse_seq_well_formed::<ItemSlot>(bytes, 5096, 1500 as nat);
        lemma_parse_seq_well_formed::<ItemSlot>(bytes, 29096, 800 as nat);
        lemma_parse_seq_well_formed::<ItemSlot>(bytes, 41896, ITEM_ACCESSORY_MAX as nat);
        lemma_parse_seq_well_formed::<ItemSlot>(bytes, 65896, 200 as nat);
        lemma_parse_seq_well_formed::<ItemSlot>(bytes, 69096, 16 as nat);
        lemma_parse_seq_well_formed::<ItemSlot>(bytes, 69352, 64 as nat);
    }

    proof fn lemma_emit_frame(v: InventoryModel, buf: Seq<u8>) {
        Self::lemma_fields(v, buf);
    }

    proof fn lemma_parse_local(a: Seq<u8>, b: Seq<u8>) {
        lemma_parse_at_local::<u32>(a, b, 0);
        lemma_parse_seq_local::<ItemSlot>(a, b, 40, 16 as nat);
        lemma_parse_seq_local::<ItemSlot>(a, b, 296, 300 as nat);
        lemma_parse_seq_local::<ItemSlot>(a, b, 5096, 1500 as nat);
        lemma_parse_seq_local::<ItemSlot>(a, b, 29096, 800 as nat);
        lemma_parse_seq_local::<ItemSlot>(a, b, 41896, ITEM_ACCESSORY_MAX as nat);
        lemma_parse_seq_local::<ItemSlot>(a, b, 65896, 200 as nat);
        lemma_parse_seq_local::<ItemSlot>(a, b, 69096, 16 as nat);
        lemma_parse_seq_local::<ItemSlot>(a, b, 69352, 64 as nat);
    }

    proof fn lemma_round_trip(v: InventoryModel, buf: Seq<u8>) {
        Self::lemma_fields(v, buf);
    }

    fn size() -> (r: usize) {
        70376
    }

    fn read_at(bytes: &[u8], off: usize) -> (r: Inventory) {
        let _ = bytes.len();
        proof {
            lemma_parse_at_shift::<u32>(bytes@, off as int, 0);
            lemma_parse_seq_shift::<ItemSlot>(bytes@, off as int, 40, 16 as nat);
            lemma_parse_seq_shift::<ItemSlot>(bytes@, off as int, 296, 300 as nat);
            lemma_parse_seq_shift::<ItemSlot>(bytes@, off as int, 5096, 1500 as nat);
            lemma_parse_seq_shift::<ItemSlot>(bytes@, off as int, 29096, 800 as nat);
            lemma_parse_seq_shift::<ItemSlot>(bytes@, off as int, 41896, ITEM_ACCESSORY_MAX as nat);
            lemma_parse_seq_shift::<ItemSlot>(bytes@, off as int, 65896, 200 as nat);
            lemma_parse_seq_shift::<ItemSlot>(bytes@, off as int, 69096, 16 as nat);
            lemma_parse_seq_shift::<ItemSlot>(bytes@, off as int, 69352, 64 as nat);
        }
        Inventory {
            chronological_id_max: u32::read_at(bytes, off),
            cylinders: read_seq::<ItemSlot>(bytes, off + 40, 16),
            gems: read_seq::<ItemSlot>(bytes, off + 296, 300),
            collectibles: read_seq::<ItemSlot>(bytes, off + 5096, 1500),
            infos: read_seq::<ItemSlot>(bytes, off + 29096, 800),
            accessories: read_seq::<ItemSlot>(bytes, off + 41896, ITEM_ACCESSORY_MAX),
            key_items: read_seq::<ItemSlot>(bytes, off + 65896, 200),
            exchange: read_seq::<ItemSlot>(bytes, off + 69096, 16),
            extra: read_seq::<ItemSlot>(bytes, off + 69352, 64),
        }
    }

    #[verifier::spinoff_prover]
    #[verifier::rlimit(80)]
    fn write_at(&self, bytes: &mut [u8], off: usize) {
        let ghost b = old(bytes)@;
        let _ = bytes.len();
        let ghost a0 = bytes@;
        self.chronological_id_max.write_at(bytes, off);
        proof {
            lemma_emit_at_frame::<u32>(self@.chronological_id_max, a0, (off) as int);
        }
        let ghost a1 = bytes@;
        write_seq(&self.cylinders, bytes, off + 40);
        proof {
            lemma_emit_seq_frame::<ItemSlot>(self@.cylinders, a1, (off + 40) as int);
        }
        let ghost a2 = bytes@;
        write_seq(&self.gems, bytes, off + 296);
        proof {
            lemma_emit_seq_frame::<ItemSlot>(self@.gems, a2, (off + 296) as int);
        }
        let ghost a3 = bytes@;
        write_seq(&self.collectibles, bytes, off + 5096);
        proof {
            lemma_emit_seq_frame::<ItemSlot>(self@.collectibles, a3, (off + 5096) as int);
        }
        let ghost a4 = bytes@;
        write_seq(&self.infos, bytes, off + 29096);
        proof {
            lemma_emit_seq_frame::<ItemSlot>(self@.infos, a4, (off + 29096) as int);
        }
        let ghost a5 = bytes@;
        write_seq(&self.accessories, bytes, off + 41896);
        proof {
            lemma_emit_seq_frame::<ItemSlot>(self@.accessories, a5, (off + 41896) as int);
        }
        let ghost a6 = bytes@;
        write_seq(&self.key_items, bytes, off + 65896);
        proof {
            lemma_emit_seq_frame::<ItemSlot>(self@.key_items, a6, (off + 65896) as int);
        }
        let ghost a7 = bytes@;
        write_seq(&self.exchange, bytes, off + 69096);
        proof {
            lemma_emit_seq_frame::<ItemSlot>(self@.exchange, a7, (off + 69096) as int);
        }
        let ghost a8 = bytes@;
        write_seq(&self.extra, bytes, off + 69352);
        proof {
            let p = b.take(off as int);
            let s0 = b.skip(off as int);
            assert(b =~= p + s0);
            lemma_emit_at_shift::<u32>(self@.chronological_id_max, p, s0, 0);
            let s1 = emit_at::<u32>(self@.chronological_id_max, s0, 0);
            lemma_emit_at_frame::<u32>(self@.chronological_id_max, s0, 0);
            lemma_emit_seq_shift::<ItemSlot>(self@.cylinders, p, s1, 40);
            let s2 = emit_seq::<ItemSlot>(self@.cylinders, s1, 40);
            lemma_emit_seq_frame::<ItemSlot>(self@.cylinders, s1, 40);
            lemma_emit_seq_shift::<ItemSlot>(self@.gems, p, s2, 296);
            let s3 = emit_seq::<ItemSlot>(self@.gems, s2, 296);
            lemma_emit_seq_frame::<ItemSlot>(self@.gems, s2, 296);
            lemma_emit_seq_shift::<ItemSlot>(self@.collectibles, p, s3, 5096);
            let s4 = emit_seq::<ItemSlot>(self@.collectibles, s3, 5096);
            lemma_emit_seq_frame::<ItemSlot>(self@.collectibles, s3, 5096);
            lemma_emit_seq_shift::<ItemSlot>(self@.infos, p, s4, 29096);
            let s5 = emit_seq::<ItemSlot>(self@.infos, s4, 29096);
            lemma_emit_seq_frame::<ItemSlot>(self@.infos, s4, 29096);
            lemma_emit_seq_shift::<ItemSlot>(self@.accessories, p, s5, 41896);
            let s6 = emit_seq::<ItemSlot>(self@.accessories, s5, 41896);
            lemma_emit_seq_frame::<ItemSlot>(self@.accessories, s5, 41896);
            lemma_emit_seq_shift::<ItemSlot>(self@.key_items, p, s6, 65896);
            let s7 = emit_seq::<ItemSlot>(self@.key_items, s6, 65896);
            lemma_emit_seq_frame::<ItemSlot>(self@.key_items, s6, 65896);
            lemma_emit_seq_shift::<ItemSlot>(self@.exchange, p, s7, 69096);
            let s8 = emit_seq::<ItemSlot>(self@.exchange, s7, 69096);
            lemma_emit_seq_frame::<ItemSlot>(self@.exchange, s7, 69096);
            lemma_emit_seq_shift::<ItemSlot>(self@.extra, p, s8, 69352);
        }
    }

    fn validate(&self) -> (r: Result<(), SaveError>) {
        Ok(())
    }
}


} // verus!

verus! {

/// The categories of items.
#[derive(Debug, Clone, Copy, PartialEq, Eq, Structural)]
pub enum ItemType {
    Cylinder,
    Gem,
    Collection,
    Info,
    Accessory,
    Collectopedia,
    Precious,
    Exchange,
    Extra,
}

/// A number that names no item type.
#[derive(Debug, Clone, Copy, PartialEq, Eq)]
pub struct TypeFromIntError(pub u32);

/// The bits of an item slot's flags.
#[derive(Debug, Clone, Copy, PartialEq, Eq)]
pub enum SlotFlags {
    /// The slot has an item inside.
    Active,
    /// The player has marked the item as favorite.
    Favorite,
    /// The small circle icon for "unchecked" items.
    New,
    /// The item has crafted accessory data associated to it.
    HasCraftData,
}

/// The numbers that name item types, `1..=9`.
pub open spec fn item_type_valid(raw: u32) -> bool {
    1 <= raw <= 9
}

/// The item type that a number names.
pub open spec fn item_type_of(raw: u32) -> Result<ItemType, TypeFromIntError> {
    if raw == 1 {
        Ok(ItemType::Cylinder)
    } else if raw == 2 {
        Ok(ItemType::Gem)
    } else if raw == 3 {
        Ok(ItemType::Collection)
    } else if raw == 4 {
        Ok(ItemType::Info)
    } else if raw == 5 {
        Ok(ItemType::Accessory)
    } else if raw == 6 {
        Ok(ItemType::Collectopedia)
    } else if raw == 7 {
        Ok(ItemType::Precious)
    } else if raw == 8 {
        Ok(ItemType::Exchange)
    } else if raw == 9 {
        Ok(ItemType::Extra)
    } else {
        Err(TypeFromIntError(raw))
    }
}

impl SlotFlags {
    /// The bit of this flag in a slot's flags byte.
    pub fn mask(self) -> (r: u8)
        ensures
            r == match self {
                SlotFlags::Active => 1u8,
                SlotFlags::Favorite => 2u8,
                SlotFlags::New => 4u8,
                SlotFlags::HasCraftData => 8u8,
            },
    {
        match self {
            SlotFlags::Active => 1,
            SlotFlags::Favorite => 2,
            SlotFlags::New => 4,
            SlotFlags::HasCraftData => 8,
        }
    }
}

impl ItemType {
    /// The number that names this item type in the file.
    pub open spec fn raw_spec(self) -> u32 {
        match self {
            ItemType::Cylinder => 1,
            ItemType::Gem => 2,
            ItemType::Collection => 3,
            ItemType::Info => 4,
            ItemType::Accessory => 5,
            ItemType::Collectopedia => 6,
            ItemType::Precious => 7,
            ItemType::Exchange => 8,
            ItemType::Extra => 9,
        }
    }

    /// The number that names this item type in the file.
    pub fn raw(self) -> (r: u32)
        ensures
            r == self.raw_spec(),
            item_type_of(r) == Ok::<ItemType, TypeFromIntError>(self),
    {
        match self {
            ItemType::Cylinder => 1,
            ItemType::Gem => 2,
            ItemType::Collection => 3,
            ItemType::Info => 4,
            ItemType::Accessory => 5,
            ItemType::Collectopedia => 6,
            ItemType::Precious => 7,
            ItemType::Exchange => 8,
            ItemType::Extra => 9,
        }
    }

    /// The key of the item type's name in the language tables.
    pub fn lang_id(self) -> (r: &'static str)
        ensures
            r@ == match self {
                ItemType::Cylinder => "cylinder"@,
                ItemType::Gem => "gem"@,
                ItemType::Collection => "collection"@,
                ItemType::Collectopedia => "collepedia"@,
                ItemType::Info => "info"@,
                ItemType::Accessory => "accessory"@,
                ItemType::Precious => "precious"@,
                ItemType::Exchange => "exchange"@,
                ItemType::Extra => "extra"@,
            },
    {
        match self {
            ItemType::Cylinder => "cylinder",
            ItemType::Gem => "gem",
            ItemType::Collection => "collection",
            ItemType::Collectopedia => "collepedia",
            ItemType::Info => "info",
            ItemType::Accessory => "accessory",
            ItemType::Precious => "precious",
            ItemType::Exchange => "exchange",
            ItemType::Extra => "extra",
        }
    }
}

impl TryFrom<u32> for ItemType {
    type Error = TypeFromIntError;

    fn try_from(value: u32) -> (r: Result<ItemType, TypeFromIntError>) {
        match value {
            1 => Ok(ItemType::Cylinder),
            2 => Ok(ItemType::Gem),
            3 => Ok(ItemType::Collection),
            4 => Ok(ItemType::Info),
            5 => Ok(ItemType::Accessory),
            6 => Ok(ItemType::Collectopedia),
            7 => Ok(ItemType::Precious),
            8 => Ok(ItemType::Exchange),
            9 => Ok(ItemType::Extra),
            i => Err(TypeFromIntError(i)),
        }
    }
}

impl vstd::std_specs::convert::TryFromSpecImpl<u32> for ItemType {
    open spec fn obeys_try_from_spec() -> bool {
        true
    }

    open spec fn try_from_spec(v: u32) -> Result<ItemType, TypeFromIntError> {
        item_type_of(v)
    }
}

impl ItemSlot {
    /// Whether the slot holds an item: its `Active` flag is set.
    pub open spec fn is_valid_spec(&self) -> bool {
        self.flags & 1u8 != 0
    }

    /// Returns the slot's positional index.
    pub fn index(&self) -> (r: u16)
        ensures
            r == self.slot_index,
    {
        self.slot_index
    }

    /// Returns the slot's item ID.
    pub fn item_id(&self) -> (r: u16)
        ensures
            r == self.item_id,
    {
        self.item_id
    }

    /// Returns the slot's item amount.
    pub fn amount(&self) -> (r: u16)
        ensures
            r == self.amount,
    {
        self.amount
    }

    /// Returns the slot's item type. The slot must hold an item of a known
    /// type.
    pub fn item_type(&self) -> (r: ItemType)
        requires
            self.is_valid_spec(),
            item_type_valid(self.item_type),
        ensures
            item_type_of(self.item_type) == Ok::<ItemType, TypeFromIntError>(r),
            r.raw_spec() == self.item_type,
    {
        let r = ItemType::try_from(self.item_type);
        match r {
            Ok(t) => t,
            Err(_) => ItemType::Cylinder,
        }
    }

    /// Returns whether the slot is occupied by a valid item.
    pub fn is_valid(&self) -> (r: bool)
        ensures
            r == self.is_valid_spec(),
    {
        self.flags & SlotFlags::Active.mask() != 0
    }

    /// The rank of the slot's item in the order of acquisition.
    pub fn chronological_id(&self) -> (r: u32)
        ensures
            r == self.chronological_id,
    {
        self.chronological_id
    }

    pub fn set_chronological_id(&mut self, chronological_id: u32)
        ensures
            *final(self) == (ItemSlot { chronological_id, ..*old(self) }),
    {
        self.chronological_id = chronological_id;
    }
}

impl GemLevels {
    /// Returns the item ID that stands for the gem category
    /// (`ITM_Gem.Category`, counted from 1), or `None` when the category is
    /// out of range or holds no item.
    pub fn get_item(&self, category: usize) -> (r: Option<u16>)
        ensures
            r == (if 1 <= category <= self.item_ids@.len() && self.item_ids@[category - 1] != 0 {
                Some(self.item_ids@[category - 1])
            } else {
                None::<u16>
            }),
    {
        if category == 0 || category > self.item_ids.len() {
            return None;
        }
        let n = self.item_ids[category - 1];
        if n != 0 {
            Some(n)
        } else {
            None
        }
    }

    /// Updates the item ID that stands for a gem category (counted from 1).
    ///
    /// The ID should be that of the highest level the player has unlocked
    /// for the gem.
    pub fn set_item(&mut self, category: usize, item_id: u16)
        requires
            1 <= category <= old(self).item_ids@.len(),
        ensures
            final(self).item_ids@ == old(self).item_ids@.update(category - 1, item_id),
    {
        self.item_ids.set(category - 1, item_id);
    }
}

} // verus!

verus! {

/// Index `i` holds the first slot of `slots` with item ID `id`.
pub open spec fn is_first_position(slots: Seq<ItemSlot>, id: u16, i: int) -> bool {
    &&& 0 <= i < slots.len()
    &&& slots[i].item_id == id
    &&& forall|j: int| 0 <= j < i ==> (#[trigger] slots[j]).item_id != id
}

/// `slots` holds a slot with item ID `id`.
pub open spec fn has_item(slots: Seq<ItemSlot>, id: u16) -> bool {
    exists|i: int| 0 <= i < slots.len() && (#[trigger] slots[i]).item_id == id
}

/// The index of the first slot of `slots` with item ID `id`.
pub open spec fn position_of(slots: Seq<ItemSlot>, id: u16) -> int {
    choose|i: int| is_first_position(slots, id, i)
}

/// The item types that have slots in the inventory: all but
/// `Collectopedia`.
pub open spec fn has_slots(t: ItemType) -> bool {
    t != ItemType::Collectopedia
}

proof fn lemma_first_position_unique(slots: Seq<ItemSlot>, id: u16, i: int)
    requires
        is_first_position(slots, id, i),
    ensures
        position_of(slots, id) == i,
{
    let k = position_of(slots, id);
    assert(is_first_position(slots, id, k));
    if k < i {
        assert(slots[k].item_id != id);
    } else if i < k {
        assert(slots[i].item_id != id);
    }
}

/// Finds the first slot with item ID `id`.
fn find_position(slots: &[ItemSlot], id: u16) -> (r: Option<usize>)
    ensures
        match r {
            Some(i) => is_first_position(slots@, id, i as int),
            None => !has_item(slots@, id),
        },
{
    let n = slots.len();
    let mut i: usize = 0;
    while i < n
        invariant
            i <= n,
            n == slots@.len(),
            forall|j: int| 0 <= j < i ==> (#[trigger] slots@[j]).item_id != id,
        decreases n - i,
    {
        if slots[i].item_id == id {
            return Some(i);
        }
        i = i + 1;
    }
    None
}

impl Inventory {
    /// The slots of item type `t`.
    pub open spec fn category(&self, t: ItemType) -> Seq<ItemSlot> {
        match t {
            ItemType::Cylinder => self.cylinders@,
            ItemType::Gem => self.gems@,
            ItemType::Collection => self.collectibles@,
            ItemType::Info => self.infos@,
            ItemType::Accessory => self.accessories@,
            ItemType::Precious => self.key_items@,
            ItemType::Exchange => self.exchange@,
            ItemType::Extra => self.extra@,
            ItemType::Collectopedia => Seq::empty(),
        }
    }

    /// The slots of an item type.
    pub fn slots(&self, item_type: ItemType) -> (r: &[ItemSlot])
        requires
            has_slots(item_type),
        ensures
            r@ == self.category(item_type),
    {
        match item_type {
            ItemType::Cylinder => self.cylinders.as_slice(),
            ItemType::Gem => self.gems.as_slice(),
            ItemType::Collection => self.collectibles.as_slice(),
            ItemType::Info => self.infos.as_slice(),
            ItemType::Accessory => self.accessories.as_slice(),
            ItemType::Precious => self.key_items.as_slice(),
            ItemType::Exchange => self.exchange.as_slice(),
            ItemType::Extra => self.extra.as_slice(),
            ItemType::Collectopedia => self.cylinders.as_slice(),
        }
    }

    /// The slots of an item type, for editing.
    pub fn slots_mut(&mut self, item_type: ItemType) -> (r: &mut [ItemSlot])
        requires
            has_slots(item_type),
        ensures
            r@ == old(self).category(item_type),
            final(self).category(item_type) == final(r)@,
            forall|t: ItemType|
                t != item_type ==> #[trigger] final(self).category(t) == old(self).category(t),
            final(self).chronological_id_max == old(self).chronological_id_max,
    {
        match item_type {
            ItemType::Cylinder => self.cylinders.as_mut_slice(),
            ItemType::Gem => self.gems.as_mut_slice(),
            ItemType::Collection => self.collectibles.as_mut_slice(),
            ItemType::Info => self.infos.as_mut_slice(),
            ItemType::Accessory => self.accessories.as_mut_slice(),
            ItemType::Precious => self.key_items.as_mut_slice(),
            ItemType::Exchange => self.exchange.as_mut_slice(),
            ItemType::Extra => self.extra.as_mut_slice(),
            ItemType::Collectopedia => self.cylinders.as_mut_slice(),
        }
    }

    /// The slots of two different item types, both for editing.
    fn two_categories_mut(&mut self, ty_a: ItemType, ty_b: ItemType) -> (r: (
        &mut [ItemSlot],
        &mut [ItemSlot],
    ))
        requires
            has_slots(ty_a),
            has_slots(ty_b),
            ty_a != ty_b,
        ensures
            r.0@ == old(self).category(ty_a),
            r.1@ == old(self).category(ty_b),
            final(self).category(ty_a) == final(r.0)@,
            final(self).category(ty_b) == final(r.1)@,
            forall|t: ItemType|
                t != ty_a && t != ty_b ==> #[trigger] final(self).category(t) == old(
                    self,
                ).category(t),
            final(self).chronological_id_max == old(self).chronological_id_max,
    {
        match (ty_a, ty_b) {
            (ItemType::Cylinder, ItemType::Gem) => (self.cylinders.as_mut_slice(), self.gems.as_mut_slice()),
            (ItemType::Cylinder, ItemType::Collection) => (self.cylinders.as_mut_slice(), self.collectibles.as_mut_slice()),
            (ItemType::Cylinder, ItemType::Info) => (self.cylinders.as_mut_slice(), self.infos.as_mut_slice()),
            (ItemType::Cylinder, ItemType::Accessory) => (self.cylinders.as_mut_slice(), self.accessories.as_mut_slice()),
            (ItemType::Cylinder, ItemType::Precious) => (self.cylinders.as_mut_slice(), self.key_items.as_mut_slice()),
            (ItemType::Cylinder, ItemType::Exchange) => (self.cylinders.as_mut_slice(), self.exchange.as_mut_slice()),
            (ItemType::Cylinder, ItemType::Extra) => (self.cylinders.as_mut_slice(), self.extra.as_mut_slice()),
            (ItemType::Gem, ItemType::Cylinder) => (self.gems.as_mut_slice(), self.cylinders.as_mut_slice()),
            (ItemType::Gem, ItemType::Collection) => (self.gems.as_mut_slice(), self.collectibles.as_mut_slice()),
            (ItemType::Gem, ItemType::Info) => (self.gems.as_mut_slice(), self.infos.as_mut_slice()),
            (ItemType::Gem, ItemType::Accessory) => (self.gems.as_mut_slice(), self.accessories.as_mut_slice()),
            (ItemType::Gem, ItemType::Precious) => (self.gems.as_mut_slice(), self.key_items.as_mut_slice()),
            (ItemType::Gem, ItemType::Exchange) => (self.gems.as_mut_slice(), self.exchange.as_mut_slice()),
            (ItemType::Gem, ItemType::Extra) => (self.gems.as_mut_slice(), self.extra.as_mut_slice()),
            (ItemType::Collection, ItemType::Cylinder) => (self.collectibles.as_mut_slice(), self.cylinders.as_mut_slice()),
            (ItemType::Collection, ItemType::Gem) => (self.collectibles.as_mut_slice(), self.gems.as_mut_slice()),
            (ItemType::Collection, ItemType::Info) => (self.collectibles.as_mut_slice(), self.infos.as_mut_slice()),
            (ItemType::Collection, ItemType::Accessory) => (self.collectibles.as_mut_slice(), self.accessories.as_mut_slice()),
            (ItemType::Collection, ItemType::Precious) => (self.collectibles.as_mut_slice(), self.key_items.as_mut_slice()),
            (ItemType::Collection, ItemType::Exchange) => (self.collectibles.as_mut_slice(), self.exchange.as_mut_slice()),
            (ItemType::Collection, ItemType::Extra) => (self.collectibles.as_mut_slice(), self.extra.as_mut_slice()),
            (ItemType::Info, ItemType::Cylinder) => (self.infos.as_mut_slice(), self.cylinders.as_mut_slice()),
            (ItemType::Info, ItemType::Gem) => (self.infos.as_mut_slice(), self.gems.as_mut_slice()),
            (ItemType::Info, ItemType::Collection) => (self.infos.as_mut_slice(), self.collectibles.as_mut_slice()),
            (ItemType::Info, ItemType::Accessory) => (self.infos.as_mut_slice(), self.accessories.as_mut_slice()),
            (ItemType::Info, ItemType::Precious) => (self.infos.as_mut_slice(), self.key_items.as_mut_slice()),
            (ItemType::Info, ItemType::Exchange) => (self.infos.as_mut_slice(), self.exchange.as_mut_slice()),
            (ItemType::Info, ItemType::Extra) => (self.infos.as_mut_slice(), self.extra.as_mut_slice()),
            (ItemType::Accessory, ItemType::Cylinder) => (self.accessories.as_mut_slice(), self.cylinders.as_mut_slice()),
            (ItemType::Accessory, ItemType::Gem) => (self.accessories.as_mut_slice(), self.gems.as_mut_slice()),
            (ItemType::Accessory, ItemType::Collection) => (self.accessories.as_mut_slice(), self.collectibles.as_mut_slice()),
            (ItemType::Accessory, ItemType::Info) => (self.accessories.as_mut_slice(), self.infos.as_mut_slice()),
            (ItemType::Accessory, ItemType::Precious) => (self.accessories.as_mut_slice(), self.key_items.as_mut_slice()),
            (ItemType::Accessory, ItemType::Exchange) => (self.accessories.as_mut_slice(), self.exchange.as_mut_slice()),
            (ItemType::Accessory, ItemType::Extra) => (self.accessories.as_mut_slice(), self.extra.as_mut_slice()),
            (ItemType::Precious, ItemType::Cylinder) => (self.key_items.as_mut_slice(), self.cylinders.as_mut_slice()),
            (ItemType::Precious, ItemType::Gem) => (self.key_items.as_mut_slice(), self.gems.as_mut_slice()),
            (ItemType::Precious, ItemType::Collection) => (self.key_items.as_mut_slice(), self.collectibles.as_mut_slice()),
            (ItemType::Precious, ItemType::Info) => (self.key_items.as_mut_slice(), self.infos.as_mut_slice()),
            (ItemType::Precious, ItemType::Accessory) => (self.key_items.as_mut_slice(), self.accessories.as_mut_slice()),
            (ItemType::Precious, ItemType::Exchange) => (self.key_items.as_mut_slice(), self.exchange.as_mut_slice()),
            (ItemType::Precious, ItemType::Extra) => (self.key_items.as_mut_slice(), self.extra.as_mut_slice()),
            (ItemType::Exchange, ItemType::Cylinder) => (self.exchange.as_mut_slice(), self.cylinders.as_mut_slice()),
            (ItemType::Exchange, ItemType::Gem) => (self.exchange.as_mut_slice(), self.gems.as_mut_slice()),
            (ItemType::Exchange, ItemType::Collection) => (self.exchange.as_mut_slice(), self.collectibles.as_mut_slice()),
            (ItemType::Exchange, ItemType::Info) => (self.exchange.as_mut_slice(), self.infos.as_mut_slice()),
            (ItemType::Exchange, ItemType::Accessory) => (self.exchange.as_mut_slice(), self.accessories.as_mut_slice()),
            (ItemType::Exchange, ItemType::Precious) => (self.exchange.as_mut_slice(), self.key_items.as_mut_slice()),
            (ItemType::Exchange, ItemType::Extra) => (self.exchange.as_mut_slice(), self.extra.as_mut_slice()),
            (ItemType::Extra, ItemType::Cylinder) => (self.extra.as_mut_slice(), self.cylinders.as_mut_slice()),
            (ItemType::Extra, ItemType::Gem) => (self.extra.as_mut_slice(), self.gems.as_mut_slice()),
            (ItemType::Extra, ItemType::Collection) => (self.extra.as_mut_slice(), self.collectibles.as_mut_slice()),
            (ItemType::Extra, ItemType::Info) => (self.extra.as_mut_slice(), self.infos.as_mut_slice()),
            (ItemType::Extra, ItemType::Accessory) => (self.extra.as_mut_slice(), self.accessories.as_mut_slice()),
            (ItemType::Extra, ItemType::Precious) => (self.extra.as_mut_slice(), self.key_items.as_mut_slice()),
            (ItemType::Extra, ItemType::Exchange) => (self.extra.as_mut_slice(), self.exchange.as_mut_slice()),
            _ => {
                proof {
                    assert(false);
                }
                (self.cylinders.as_mut_slice(), self.gems.as_mut_slice())
            },
        }
    }

    /// Returns the slots of two different items, both for editing.
    ///
    /// Each item is given by its type and its ID, and is the first slot of
    /// that type with that ID. Both items must be in the inventory, and must
    /// not be the same slot.
    ///
    /// Within one item type the slot array is split between the two
    /// positions, so the two references never point to the same slot; slots
    /// of different types live in different arrays.
    pub fn split_slots_mut(&mut self, ty_a: ItemType, id_a: u16, ty_b: ItemType, id_b: u16) -> (r: (
        &mut ItemSlot,
        &mut ItemSlot,
    ))
        requires
            has_slots(ty_a),
            has_slots(ty_b),
            has_item(old(self).category(ty_a), id_a),
            has_item(old(self).category(ty_b), id_b),
            ty_a != ty_b || id_a != id_b,
        ensures
            ({
                let pa = position_of(old(self).category(ty_a), id_a);
                let pb = position_of(old(self).category(ty_b), id_b);
                &&& *r.0 == old(self).category(ty_a)[pa]
                &&& *r.1 == old(self).category(ty_b)[pb]
                &&& ty_a == ty_b ==> pa != pb && final(self).category(ty_a) == old(self).category(
                    ty_a,
                ).update(pa, *final(r.0)).update(pb, *final(r.1))
                &&& ty_a != ty_b ==> final(self).category(ty_a) == old(self).category(ty_a).update(
                    pa,
                    *final(r.0),
                ) && final(self).category(ty_b) == old(self).category(ty_b).update(
                    pb,
                    *final(r.1),
                )
            }),
            forall|t: ItemType|
                t != ty_a && t != ty_b ==> #[trigger] final(self).category(t) == old(
                    self,
                ).category(t),
            final(self).chronological_id_max == old(self).chronological_id_max,
    {
        let pa = match find_position(self.slots(ty_a), id_a) {
            Some(i) => i,
            None => {
                proof {
                    assert(false);
                }
                0
            },
        };
        let pb = match find_position(self.slots(ty_b), id_b) {
            Some(i) => i,
            None => {
                proof {
                    assert(false);
                }
                0
            },
        };
        proof {
            lemma_first_position_unique(self.category(ty_a), id_a, pa as int);
            lemma_first_position_unique(self.category(ty_b), id_b, pb as int);
        }
        if ty_a == ty_b {
            let slots = self.slots_mut(ty_a);
            if pa > pb {
                let (before_a, after_a) = slots.split_at_mut(pa);
                (&mut after_a[0], &mut before_a[pb])
            } else {
                let (before_b, after_b) = slots.split_at_mut(pb);
                (&mut before_b[pa], &mut after_b[0])
            }
        } else {
            let (slots_a, slots_b) = self.two_categories_mut(ty_a, ty_b);
            (&mut slots_a[pa], &mut slots_b[pb])
        }
    }
}

} // verus!
