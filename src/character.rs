//! Character class records: equipped gems, arts, skills and accessories.
use vstd::prelude::*;

use crate::codec::{
    all_well_formed, canonical_seq, changed_only, emit_at, emit_seq, lemma_at_rewrite,
    lemma_at_round_trip, lemma_emit_at_frame, lemma_emit_at_shift, lemma_emit_seq_frame,
    lemma_emit_seq_shift, lemma_parse_at_local, lemma_parse_at_shift, lemma_parse_seq_local,
    lemma_parse_seq_shift, lemma_parse_seq_well_formed, lemma_seq_rewrite, lemma_seq_round_trip,
    parse_at, parse_seq, read_seq, views, write_seq, SaveBin,
};
use crate::error::SaveError;
use crate::item::{item_type_valid, ItemType};
use crate::slot::{Slot, SlotMut};

verus! {

pub const CHARACTER_CLASS_ART_MAX: usize = 7;

pub const CHARACTER_CLASS_SKILL_MAX: usize = 8;

pub const CHARACTER_CLASS_GEM_MAX: usize = 10;

pub const CHARACTER_CLASS_ACCESSORY_MAX: usize = 3;

/// Accessory slot data.
///
/// What matters to the game is `slot_index`; changing the BDAT ID has no
/// effect.
#[derive(Debug, Clone, Copy, Default, PartialEq, Eq)]
pub struct ClassAccessory {
    pub bdat_id: u16,
    pub slot_index: u16,
    pub item_type: u16,
}

impl View for ClassAccessory {
    type V = ClassAccessory;

    open spec fn view(&self) -> ClassAccessory {
        *self
    }
}

impl ClassAccessory {
    /// The value whose encoding starts at the beginning of `bytes`.
    pub open spec fn parse_fields(bytes: Seq<u8>) -> ClassAccessory {
        ClassAccessory {
            bdat_id: parse_at::<u16>(bytes, 0),
            slot_index: parse_at::<u16>(bytes, 2),
            item_type: parse_at::<u16>(bytes, 4),
        }
    }

    /// `buf` with the encoding of `v` written over its start.
    pub open spec fn emit_fields(v: ClassAccessory, buf: Seq<u8>) -> Seq<u8> {
        let b1 = emit_at::<u16>(v.bdat_id, buf, 0);
        let b2 = emit_at::<u16>(v.slot_index, b1, 2);
        emit_at::<u16>(v.item_type, b2, 4)
    }

    /// The shape of the arrays of `v`.
    pub open spec fn fields_well_formed(v: ClassAccessory) -> bool {
        true
    }

    proof fn lemma_fields(v: ClassAccessory, buf: Seq<u8>)
        requires
            buf.len() >= 6,
            Self::fields_well_formed(v),
        ensures
            changed_only(buf, Self::emit_fields(v, buf), 0, 6),
            Self::parse_fields(Self::emit_fields(v, buf)) == v,
    {
        let b1 = emit_at::<u16>(v.bdat_id, buf, 0);
        lemma_emit_at_frame::<u16>(v.bdat_id, buf, 0);
        let b2 = emit_at::<u16>(v.slot_index, b1, 2);
        lemma_emit_at_frame::<u16>(v.slot_index, b1, 2);
        let b3 = emit_at::<u16>(v.item_type, b2, 4);
        lemma_emit_at_frame::<u16>(v.item_type, b2, 4);
        assert(b3 == Self::emit_fields(v, buf));
        {
            lemma_at_round_trip::<u16>(v.bdat_id, buf, 0);
            lemma_parse_at_local::<u16>(b3, b1, 0);
            lemma_at_round_trip::<u16>(v.slot_index, b1, 2);
            lemma_parse_at_local::<u16>(b3, b2, 2);
            lemma_at_round_trip::<u16>(v.item_type, b2, 4);
            assert(Self::parse_fields(b3) == v);
        }
    }
}

impl SaveBin for ClassAccessory {
    open spec fn byte_size() -> nat {
        6
    }

    open spec fn well_formed(v: ClassAccessory) -> bool {
        Self::fields_well_formed(v)
    }

    open spec fn parse(bytes: Seq<u8>) -> ClassAccessory {
        Self::parse_fields(bytes)
    }

    open spec fn emit(v: ClassAccessory, buf: Seq<u8>) -> Seq<u8> {
        Self::emit_fields(v, buf)
    }

    open spec fn check(v: ClassAccessory) -> Result<(), SaveError> {
        Ok(())
    }

    open spec fn canonical(bytes: Seq<u8>) -> bool {
        &&& u16::canonical(bytes.skip(0))
        &&& u16::canonical(bytes.skip(2))
        &&& u16::canonical(bytes.skip(4))
    }

    proof fn lemma_rewrite(bytes: Seq<u8>) {
        let v = Self::parse_fields(bytes);
        lemma_at_rewrite::<u16>(bytes, 0);
        lemma_at_rewrite::<u16>(bytes, 2);
        lemma_at_rewrite::<u16>(bytes, 4);
    }

    proof fn lemma_parse_well_formed(bytes: Seq<u8>) {
    }

    proof fn lemma_emit_frame(v: ClassAccessory, buf: Seq<u8>) {
        Self::lemma_fields(v, buf);
    }

    proof fn lemma_parse_local(a: Seq<u8>, b: Seq<u8>) {
        lemma_parse_at_local::<u16>(a, b, 0);
        lemma_parse_at_local::<u16>(a, b, 2);
        lemma_parse_at_local::<u16>(a, b, 4);
    }

    proof fn lemma_round_trip(v: ClassAccessory, buf: Seq<u8>) {
        Self::lemma_fields(v, buf);
    }

    fn size() -> (r: usize) {
        6
    }

    fn read_at(bytes: &[u8], off: usize) -> (r: ClassAccessory) {
        let _ = bytes.len();
        proof {
            lemma_parse_at_shift::<u16>(bytes@, off as int, 0);
            lemma_parse_at_shift::<u16>(bytes@, off as int, 2);
            lemma_parse_at_shift::<u16>(bytes@, off as int, 4);
        }
        ClassAccessory {
            bdat_id: u16::read_at(bytes, off),
            slot_index: u16::read_at(bytes, off + 2),
            item_type: u16::read_at(bytes, off + 4),
        }
    }

    fn write_at(&self, bytes: &mut [u8], off: usize) {
        let ghost b = old(bytes)@;
        let _ = bytes.len();
        let ghost a0 = bytes@;
        self.bdat_id.write_at(bytes, off);
        proof {
            lemma_emit_at_frame::<u16>(self@.bdat_id, a0, (off) as int);
        }
        let ghost a1 = bytes@;
        self.slot_index.write_at(bytes, off + 2);
        proof {
            lemma_emit_at_frame::<u16>(self@.slot_index, a1, (off + 2) as int);
        }
        let ghost a2 = bytes@;
        self.item_type.write_at(bytes, off + 4);
        proof {
            let p = b.take(off as int);
            let s0 = b.skip(off as int);
            assert(b =~= p + s0);
            lemma_emit_at_shift::<u16>(self@.bdat_id, p, s0, 0);
            let s1 = emit_at::<u16>(self@.bdat_id, s0, 0);
            lemma_emit_at_frame::<u16>(self@.bdat_id, s0, 0);
            lemma_emit_at_shift::<u16>(self@.slot_index, p, s1, 2);
            let s2 = emit_at::<u16>(self@.slot_index, s1, 2);
            lemma_emit_at_frame::<u16>(self@.slot_index, s1, 2);
            lemma_emit_at_shift::<u16>(self@.item_type, p, s2, 4);
        }
    }

    fn validate(&self) -> (r: Result<(), SaveError>) {
        Ok(())
    }
}

/// The progress and equipment of one character in one class.
#[derive(Debug, Clone, PartialEq, Eq)]
pub struct CharacterClass {
    pub cp: u32,
    pub unlock_points: u16,
    pub level: u8,
    pub flags: u8,
    /// The raw value is `ITM_Gem.Category - 1`.
    /// For gem levels, see [`GemLevels`](crate::item::GemLevels).
    pub gems: Vec<u8>,
    pub arts: Vec<u16>,
    pub skills: Vec<u16>,
    pub accessories: Vec<ClassAccessory>,
}

/// The content of a [`CharacterClass`], with its arrays as sequences.
pub struct CharacterClassModel {
    pub cp: u32,
    pub unlock_points: u16,
    pub level: u8,
    pub flags: u8,
    pub gems: Seq<u8>,
    pub arts: Seq<u16>,
    pub skills: Seq<u16>,
    pub accessories: Seq<ClassAccessory>,
}

impl View for CharacterClass {
    type V = CharacterClassModel;

    open spec fn view(&self) -> CharacterClassModel {
        CharacterClassModel {
            cp: self.cp,
            unlock_points: self.unlock_points,
            level: self.level,
            flags: self.flags,
            gems: views(self.gems@),
            arts: views(self.arts@),
            skills: views(self.skills@),
            accessories: views(self.accessories@),
        }
    }
}

impl CharacterClass {
    /// The value whose encoding starts at the beginning of `bytes`.
    pub open spec fn parse_fields(bytes: Seq<u8>) -> CharacterClassModel {
        CharacterClassModel {
            cp: parse_at::<u32>(bytes, 0),
            unlock_points: parse_at::<u16>(bytes, 4),
            level: parse_at::<u8>(bytes, 6),
            flags: parse_at::<u8>(bytes, 7),
            gems: parse_seq::<u8>(bytes, 8, CHARACTER_CLASS_GEM_MAX as nat),
            arts: parse_seq::<u16>(bytes, 18, CHARACTER_CLASS_ART_MAX as nat),
            skills: parse_seq::<u16>(bytes, 32, CHARACTER_CLASS_SKILL_MAX as nat),
            accessories: parse_seq::<ClassAccessory>(bytes, 48, CHARACTER_CLASS_ACCESSORY_MAX as nat),
        }
    }

    /// `buf` with the encoding of `v` written over its start.
    pub open spec fn emit_fields(v: CharacterClassModel, buf: Seq<u8>) -> Seq<u8> {
        let b1 = emit_at::<u32>(v.cp, buf, 0);
        let b2 = emit_at::<u16>(v.unlock_points, b1, 4);
        let b3 = emit_at::<u8>(v.level, b2, 6);
        let b4 = emit_at::<u8>(v.flags, b3, 7);
        let b5 = emit_seq::<u8>(v.gems, b4, 8);
        let b6 = emit_seq::<u16>(v.arts, b5, 18);
        let b7 = emit_seq::<u16>(v.skills, b6, 32);
        emit_seq::<ClassAccessory>(v.accessories, b7, 48)
    }

    /// The shape of the arrays of `v`.
    pub open spec fn fields_well_formed(v: CharacterClassModel) -> bool {
        &&& v.gems.len() == CHARACTER_CLASS_GEM_MAX
        &&& all_well_formed::<u8>(v.gems)
        &&& v.arts.len() == CHARACTER_CLASS_ART_MAX
        &&& all_well_formed::<u16>(v.arts)
        &&& v.skills.len() == CHARACTER_CLASS_SKILL_MAX
        &&& all_well_formed::<u16>(v.skills)
        &&& v.accessories.len() == CHARACTER_CLASS_ACCESSORY_MAX
        &&& all_well_formed::<ClassAccessory>(v.accessories)
    }

    #[verifier::spinoff_prover]
    #[verifier::rlimit(80)]
    proof fn lemma_fields(v: CharacterClassModel, buf: Seq<u8>)
        requires
            buf.len() >= 68,
            Self::fields_well_formed(v),
        ensures
            changed_only(buf, Self::emit_fields(v, buf), 0, 68),
            Self::parse_fields(Self::emit_fields(v, buf)) == v,
    {
        let b1 = emit_at::<u32>(v.cp, buf, 0);
        lemma_emit_at_frame::<u32>(v.cp, buf, 0);
        let b2 = emit_at::<u16>(v.unlock_points, b1, 4);
        lemma_emit_at_frame::<u16>(v.unlock_points, b1, 4);
        let b3 = emit_at::<u8>(v.level, b2, 6);
        lemma_emit_at_frame::<u8>(v.level, b2, 6);
        let b4 = emit_at::<u8>(v.flags, b3, 7);
        lemma_emit_at_frame::<u8>(v.flags, b3, 7);
        let b5 = emit_seq::<u8>(v.gems, b4, 8);
        lemma_emit_seq_frame::<u8>(v.gems, b4, 8);
        let b6 = emit_seq::<u16>(v.arts, b5, 18);
        lemma_emit_seq_frame::<u16>(v.arts, b5, 18);
        let b7 = emit_seq::<u16>(v.skills, b6, 32);
        lemma_emit_seq_frame::<u16>(v.skills, b6, 32);
        let b8 = emit_seq::<ClassAccessory>(v.accessories, b7, 48);
        lemma_emit_seq_frame::<ClassAccessory>(v.accessories, b7, 48);
        assert(b8 == Self::emit_fields(v, buf));
        {
            lemma_at_round_trip::<u32>(v.cp, buf, 0);
            lemma_parse_at_local::<u32>(b8, b1, 0);
            lemma_at_round_trip::<u16>(v.unlock_points, b1, 4);
            lemma_parse_at_local::<u16>(b8, b2, 4);
            lemma_at_round_trip::<u8>(v.level, b2, 6);
            lemma_parse_at_local::<u8>(b8, b3, 6);
            lemma_at_round_trip::<u8>(v.flags, b3, 7);
            lemma_parse_at_local::<u8>(b8, b4, 7);
            lemma_seq_round_trip::<u8>(v.gems, b4, 8);
            lemma_parse_seq_local::<u8>(b8, b5, 8, CHARACTER_CLASS_GEM_MAX as nat);
            lemma_seq_round_trip::<u16>(v.arts, b5, 18);
            lemma_parse_seq_local::<u16>(b8, b6, 18, CHARACTER_CLASS_ART_MAX as nat);
            lemma_seq_round_trip::<u16>(v.skills, b6, 32);
            lemma_parse_seq_local::<u16>(b8, b7, 32, CHARACTER_CLASS_SKILL_MAX as nat);
            lemma_seq_round_trip::<ClassAccessory>(v.accessories, b7, 48);
            assert(Self::parse_fields(b8) == v);
        }
    }
}

impl SaveBin for CharacterClass {
    open spec fn byte_size() -> nat {
        68
    }

    open spec fn well_formed(v: CharacterClassModel) -> bool {
        Self::fields_well_formed(v)
    }

    open spec fn parse(bytes: Seq<u8>) -> CharacterClassModel {
        Self::parse_fields(bytes)
    }

    open spec fn emit(v: CharacterClassModel, buf: Seq<u8>) -> Seq<u8> {
        Self::emit_fields(v, buf)
    }

    open spec fn check(v: CharacterClassModel) -> Result<(), SaveError> {
        Ok(())
    }

    open spec fn canonical(bytes: Seq<u8>) -> bool {
        &&& u32::canonical(bytes.skip(0))
        &&& u16::canonical(bytes.skip(4))
        &&& u8::canonical(bytes.skip(6))
        &&& u8::canonical(bytes.skip(7))
        &&& canonical_seq::<u8>(bytes, 8, CHARACTER_CLASS_GEM_MAX as nat)
        &&& canonical_seq::<u16>(bytes, 18, CHARACTER_CLASS_ART_MAX as nat)
        &&& canonical_seq::<u16>(bytes, 32, CHARACTER_CLASS_SKILL_MAX as nat)
        &&& canonical_seq::<ClassAccessory>(bytes, 48, CHARACTER_CLASS_ACCESSORY_MAX as nat)
    }

    proof fn lemma_rewrite(bytes: Seq<u8>) {
        let v = Self::parse_fields(bytes);
        lemma_at_rewrite::<u32>(bytes, 0);
        lemma_at_rewrite::<u16>(bytes, 4);
        lemma_at_rewrite::<u8>(bytes, 6);
        lemma_at_rewrite::<u8>(bytes, 7);
        lemma_seq_rewrite::<u8>(bytes, 8, CHARACTER_CLASS_GEM_MAX as nat);
        lemma_seq_rewrite::<u16>(bytes, 18, CHARACTER_CLASS_ART_MAX as nat);
        lemma_seq_rewrite::<u16>(bytes, 32, CHARACTER_CLASS_SKILL_MAX as nat);
        lemma_seq_rewrite::<ClassAccessory>(bytes, 48, CHARACTER_CLASS_ACCESSORY_MAX as nat);
    }

    proof fn lemma_parse_well_formed(bytes: Seq<u8>) {
        lemma_parse_seq_well_formed::<u8>(bytes, 8, CHARACTER_CLASS_GEM_MAX as nat);
        lemma_parse_seq_well_formed::<u16>(bytes, 18, CHARACTER_CLASS_ART_MAX as nat);
        lemma_parse_seq_well_formed::<u16>(bytes, 32, CHARACTER_CLASS_SKILL_MAX as nat);
        lemma_parse_seq_well_formed::<ClassAccessory>(bytes, 48, CHARACTER_CLASS_ACCESSORY_MAX as nat);
    }

    proof fn lemma_emit_frame(v: CharacterClassModel, buf: Seq<u8>) {
        Self::lemma_fields(v, buf);
    }

    proof fn lemma_parse_local(a: Seq<u8>, b: Seq<u8>) {
        lemma_parse_at_local::<u32>(a, b, 0);
        lemma_parse_at_local::<u16>(a, b, 4);
        lemma_parse_at_local::<u8>(a, b, 6);
        lemma_parse_at_local::<u8>(a, b, 7);
        lemma_parse_seq_local::<u8>(a, b, 8, CHARACTER_CLASS_GEM_MAX as nat);
        lemma_parse_seq_local::<u16>(a, b, 18, CHARACTER_CLASS_ART_MAX as nat);
        lemma_parse_seq_local::<u16>(a, b, 32, CHARACTER_CLASS_SKILL_MAX as nat);
        lemma_parse_seq_local::<ClassAccessory>(a, b, 48, CHARACTER_CLASS_ACCESSORY_MAX as nat);
    }

    proof fn lemma_round_trip(v: CharacterClassModel, buf: Seq<u8>) {
        Self::lemma_fields(v, buf);
    }

    fn size() -> (r: usize) {
        68
    }

    fn read_at(bytes: &[u8], off: usize) -> (r: CharacterClass) {
        let _ = bytes.len();
        proof {
            lemma_parse_at_shift::<u32>(bytes@, off as int, 0);
            lemma_parse_at_shift::<u16>(bytes@, off as int, 4);
            lemma_parse_at_shift::<u8>(bytes@, off as int, 6);
            lemma_parse_at_shift::<u8>(bytes@, off as int, 7);
            lemma_parse_seq_shift::<u8>(bytes@, off as int, 8, CHARACTER_CLASS_GEM_MAX as nat);
            lemma_parse_seq_shift::<u16>(bytes@, off as int, 18, CHARACTER_CLASS_ART_MAX as nat);
            lemma_parse_seq_shift::<u16>(bytes@, off as int, 32, CHARACTER_CLASS_SKILL_MAX as nat);
            lemma_parse_seq_shift::<ClassAccessory>(bytes@, off as int, 48, CHARACTER_CLASS_ACCESSORY_MAX as nat);
        }
        CharacterClass {
            cp: u32::read_at(bytes, off),
            unlock_points: u16::read_at(bytes, off + 4),
            level: u8::read_at(bytes, off + 6),
            flags: u8::read_at(bytes, off + 7),
            gems: read_seq::<u8>(bytes, off + 8, CHARACTER_CLASS_GEM_MAX),
            arts: read_seq::<u16>(bytes, off + 18, CHARACTER_CLASS_ART_MAX),
            skills: read_seq::<u16>(bytes, off + 32, CHARACTER_CLASS_SKILL_MAX),
            accessories: read_seq::<ClassAccessory>(bytes, off + 48, CHARACTER_CLASS_ACCESSORY_MAX),
        }
    }

    #[verifier::spinoff_prover]
    #[verifier::rlimit(80)]
    fn write_at(&self, bytes: &mut [u8], off: usize) {
        let ghost b = old(bytes)@;
        let _ = bytes.len();
        let ghost a0 = bytes@;
        self.cp.write_at(bytes, off);
        proof {
            lemma_emit_at_frame::<u32>(self@.cp, a0, (off) as int);
        }
        let ghost a1 = bytes@;
        self.unlock_points.write_at(bytes, off + 4);
        proof {
            lemma_emit_at_frame::<u16>(self@.unlock_points, a1, (off + 4) as int);
        }
        let ghost a2 = bytes@;
        self.level.write_at(bytes, off + 6);
        proof {
            lemma_emit_at_frame::<u8>(self@.level, a2, (off + 6) as int);
        }
        let ghost a3 = bytes@;
        self.flags.write_at(bytes, off + 7);
        proof {
            lemma_emit_at_frame::<u8>(self@.flags, a3, (off + 7) as int);
        }
        let ghost a4 = bytes@;
        write_seq(&self.gems, bytes, off + 8);
        proof {
            lemma_emit_seq_frame::<u8>(self@.gems, a4, (off + 8) as int);
        }
        let ghost a5 = bytes@;
        write_seq(&self.arts, bytes, off + 18);
        proof {
            lemma_emit_seq_frame::<u16>(self@.arts, a5, (off + 18) as int);
        }
        let ghost a6 = bytes@;
        write_seq(&self.skills, bytes, off + 32);
        proof {
            lemma_emit_seq_frame::<u16>(self@.skills, a6, (off + 32) as int);
        }
        let ghost a7 = bytes@;
        write_seq(&self.accessories, bytes, off + 48);
        proof {
            let p = b.take(off as int);
            let s0 = b.skip(off as int);
            assert(b =~= p + s0);
            lemma_emit_at_shift::<u32>(self@.cp, p, s0, 0);
            let s1 = emit_at::<u32>(self@.cp, s0, 0);
            lemma_emit_at_frame::<u32>(self@.cp, s0, 0);
            lemma_emit_at_shift::<u16>(self@.unlock_points, p, s1, 4);
            let s2 = emit_at::<u16>(self@.unlock_points, s1, 4);
            lemma_emit_at_frame::<u16>(self@.unlock_points, s1, 4);
            lemma_emit_at_shift::<u8>(self@.level, p, s2, 6);
            let s3 = emit_at::<u8>(self@.level, s2, 6);
            lemma_emit_at_frame::<u8>(self@.level, s2, 6);
            lemma_emit_at_shift::<u8>(self@.flags, p, s3, 7);
            let s4 = emit_at::<u8>(self@.flags, s3, 7);
            lemma_emit_at_frame::<u8>(self@.flags, s3, 7);
            lemma_emit_seq_shift::<u8>(self@.gems, p, s4, 8);
            let s5 = emit_seq::<u8>(self@.gems, s4, 8);
            lemma_emit_seq_frame::<u8>(self@.gems, s4, 8);
            lemma_emit_seq_shift::<u16>(self@.arts, p, s5, 18);
            let s6 = emit_seq::<u16>(self@.arts, s5, 18);
            lemma_emit_seq_frame::<u16>(self@.arts, s5, 18);
            lemma_emit_seq_shift::<u16>(self@.skills, p, s6, 32);
            let s7 = emit_seq::<u16>(self@.skills, s6, 32);
            lemma_emit_seq_frame::<u16>(self@.skills, s6, 32);
            lemma_emit_seq_shift::<ClassAccessory>(self@.accessories, p, s7, 48);
        }
    }

    fn validate(&self) -> (r: Result<(), SaveError>) {
        Ok(())
    }
}


} // verus!

verus! {

/// The bits of a character class's flags.
#[derive(Debug, Clone, Copy, PartialEq, Eq)]
pub enum ClassFlags {
    /// Level cap unlocked.
    Ascended,
    /// An unused growth flag.
    Grow13,
    Unk,
}

impl ClassFlags {
    /// The position of this flag's bit in a class's flags byte.
    pub fn bit(self) -> (r: u8)
        ensures
            r == match self {
                ClassFlags::Ascended => 0u8,
                ClassFlags::Grow13 => 1u8,
                ClassFlags::Unk => 2u8,
            },
    {
        match self {
            ClassFlags::Ascended => 0,
            ClassFlags::Grow13 => 1,
            ClassFlags::Unk => 2,
        }
    }
}

impl CharacterClass {
    pub fn art_slot(&self, index: usize) -> (r: Slot<u16>)
        requires
            index < self.arts@.len(),
        ensures
            r.0 == self.arts@[index as int],
    {
        Slot(self.arts[index])
    }

    pub fn art_slot_mut(&mut self, index: usize) -> (r: SlotMut<'_, u16>)
        requires
            index < old(self).arts@.len(),
        ensures
            *r.0 == old(self).arts@[index as int],
            final(self).arts@ == old(self).arts@.update(index as int, *final(r.0)),
            final(self).cp == old(self).cp,
            final(self).unlock_points == old(self).unlock_points,
            final(self).level == old(self).level,
            final(self).flags == old(self).flags,
            final(self).gems == old(self).gems,
            final(self).skills == old(self).skills,
            final(self).accessories == old(self).accessories,
    {
        SlotMut(&mut self.arts[index])
    }

    pub fn gem_slot(&self, index: usize) -> (r: Slot<u8>)
        requires
            index < self.gems@.len(),
        ensures
            r.0 == self.gems@[index as int],
    {
        Slot(self.gems[index])
    }

    pub fn gem_slot_mut(&mut self, index: usize) -> (r: SlotMut<'_, u8>)
        requires
            index < old(self).gems@.len(),
        ensures
            *r.0 == old(self).gems@[index as int],
            final(self).gems@ == old(self).gems@.update(index as int, *final(r.0)),
            final(self).cp == old(self).cp,
            final(self).unlock_points == old(self).unlock_points,
            final(self).level == old(self).level,
            final(self).flags == old(self).flags,
            final(self).arts == old(self).arts,
            final(self).skills == old(self).skills,
            final(self).accessories == old(self).accessories,
    {
        SlotMut(&mut self.gems[index])
    }

    pub fn skill_slot(&self, index: usize) -> (r: Slot<u16>)
        requires
            index < self.skills@.len(),
        ensures
            r.0 == self.skills@[index as int],
    {
        Slot(self.skills[index])
    }

    pub fn skill_slot_mut(&mut self, index: usize) -> (r: SlotMut<'_, u16>)
        requires
            index < old(self).skills@.len(),
        ensures
            *r.0 == old(self).skills@[index as int],
            final(self).skills@ == old(self).skills@.update(index as int, *final(r.0)),
            final(self).cp == old(self).cp,
            final(self).unlock_points == old(self).unlock_points,
            final(self).level == old(self).level,
            final(self).flags == old(self).flags,
            final(self).gems == old(self).gems,
            final(self).arts == old(self).arts,
            final(self).accessories == old(self).accessories,
    {
        SlotMut(&mut self.skills[index])
    }

    pub fn accessory_slot(&self, index: usize) -> (r: Slot<ClassAccessory>)
        requires
            index < self.accessories@.len(),
        ensures
            r.0 == self.accessories@[index as int],
    {
        Slot(self.accessories[index])
    }

    pub fn accessory_slot_mut(&mut self, index: usize) -> (r: SlotMut<'_, ClassAccessory>)
        requires
            index < old(self).accessories@.len(),
        ensures
            *r.0 == old(self).accessories@[index as int],
            final(self).accessories@ == old(self).accessories@.update(index as int, *final(r.0)),
            final(self).cp == old(self).cp,
            final(self).unlock_points == old(self).unlock_points,
            final(self).level == old(self).level,
            final(self).flags == old(self).flags,
            final(self).gems == old(self).gems,
            final(self).arts == old(self).arts,
            final(self).skills == old(self).skills,
    {
        SlotMut(&mut self.accessories[index])
    }

    /// A copy of each art slot, in order.
    pub fn arts(&self) -> (r: Vec<Slot<u16>>)
        ensures
            r@.len() == self.arts@.len(),
            forall|i: int| 0 <= i < r@.len() ==> #[trigger] r@[i].0 == self.arts@[i],
    {
        let mut out: Vec<Slot<u16>> = Vec::new();
        let mut i: usize = 0;
        while i < self.arts.len()
            invariant
                i <= self.arts@.len(),
                out@.len() == i,
                forall|k: int| 0 <= k < i ==> #[trigger] out@[k].0 == self.arts@[k],
            decreases self.arts@.len() - i,
        {
            out.push(Slot(self.arts[i]));
            i = i + 1;
        }
        out
    }

    /// A copy of each gem slot, in order.
    pub fn gems(&self) -> (r: Vec<Slot<u8>>)
        ensures
            r@.len() == self.gems@.len(),
            forall|i: int| 0 <= i < r@.len() ==> #[trigger] r@[i].0 == self.gems@[i],
    {
        let mut out: Vec<Slot<u8>> = Vec::new();
        let mut i: usize = 0;
        while i < self.gems.len()
            invariant
                i <= self.gems@.len(),
                out@.len() == i,
                forall|k: int| 0 <= k < i ==> #[trigger] out@[k].0 == self.gems@[k],
            decreases self.gems@.len() - i,
        {
            out.push(Slot(self.gems[i]));
            i = i + 1;
        }
        out
    }

    /// A copy of each skill slot, in order.
    pub fn skills(&self) -> (r: Vec<Slot<u16>>)
        ensures
            r@.len() == self.skills@.len(),
            forall|i: int| 0 <= i < r@.len() ==> #[trigger] r@[i].0 == self.skills@[i],
    {
        let mut out: Vec<Slot<u16>> = Vec::new();
        let mut i: usize = 0;
        while i < self.skills.len()
            invariant
                i <= self.skills@.len(),
                out@.len() == i,
                forall|k: int| 0 <= k < i ==> #[trigger] out@[k].0 == self.skills@[k],
            decreases self.skills@.len() - i,
        {
            out.push(Slot(self.skills[i]));
            i = i + 1;
        }
        out
    }

    /// A copy of each accessory slot, in order.
    pub fn accessories(&self) -> (r: Vec<Slot<ClassAccessory>>)
        ensures
            r@.len() == self.accessories@.len(),
            forall|i: int| 0 <= i < r@.len() ==> #[trigger] r@[i].0 == self.accessories@[i],
    {
        let mut out: Vec<Slot<ClassAccessory>> = Vec::new();
        let mut i: usize = 0;
        while i < self.accessories.len()
            invariant
                i <= self.accessories@.len(),
                out@.len() == i,
                forall|k: int| 0 <= k < i ==> #[trigger] out@[k].0 == self.accessories@[k],
            decreases self.accessories@.len() - i,
        {
            out.push(Slot(self.accessories[i]));
            i = i + 1;
        }
        out
    }

}

impl ClassAccessory {
    pub fn bdat_id(&self) -> (r: u16)
        ensures
            r == self.bdat_id,
    {
        self.bdat_id
    }

    /// The accessory's item type, which must be a known one.
    pub fn item_type(&self) -> (r: ItemType)
        requires
            item_type_valid(self.item_type as u32),
        ensures
            r.raw_spec() == self.item_type as u32,
    {
        match ItemType::try_from(self.item_type as u32) {
            Ok(t) => t,
            Err(_) => ItemType::Cylinder,
        }
    }

    pub fn slot_index(&self) -> (r: u16)
        ensures
            r == self.slot_index,
    {
        self.slot_index
    }
}

} // verus!
