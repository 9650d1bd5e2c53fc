//! The top-level save file record.
use vstd::prelude::*;

use crate::codec::{
    all_well_formed, canonical_seq, changed_only, emit_at, emit_seq, lemma_at_rewrite,
    lemma_at_round_trip, lemma_emit_at_frame, lemma_emit_at_shift, lemma_emit_seq_frame,
    lemma_emit_seq_shift, lemma_parse_at_local, lemma_parse_at_shift, lemma_parse_seq_local,
    lemma_parse_seq_shift, lemma_parse_seq_well_formed, lemma_seq_rewrite, lemma_seq_round_trip,
    parse_at, parse_seq, read_seq, views, write_seq, SaveBin,
};
use crate::error::SaveError;
use crate::primitives::u32_from_bytes;

verus! {

/// The magic number at the start of every save file.
pub const SAVE_MAGIC: u32 = 0xb378fa6a;

/// The only supported version of the format.
pub const SAVE_VERSION: u8 = 10;

/// Total play time.
#[derive(Debug, Clone, Copy, PartialEq, Eq)]
pub struct PlayTime {
    pub raw: u32,
}

impl View for PlayTime {
    type V = PlayTime;

    open spec fn view(&self) -> PlayTime {
        *self
    }
}

impl PlayTime {
    /// The value whose encoding starts at the beginning of `bytes`.
    pub open spec fn parse_fields(bytes: Seq<u8>) -> PlayTime {
        PlayTime {
            raw: parse_at::<u32>(bytes, 0),
        }
    }

    /// `buf` with the encoding of `v` written over its start.
    pub open spec fn emit_fields(v: PlayTime, buf: Seq<u8>) -> Seq<u8> {
        emit_at::<u32>(v.raw, buf, 0)
    }

    /// The shape of the arrays of `v`.
    pub open spec fn fields_well_formed(v: PlayTime) -> bool {
        true
    }

    proof fn lemma_fields(v: PlayTime, buf: Seq<u8>)
        requires
            buf.len() >= 4,
            Self::fields_well_formed(v),
        ensures
            changed_only(buf, Self::emit_fields(v, buf), 0, 4),
            Self::parse_fields(Self::emit_fields(v, buf)) == v,
    {
        let b1 = emit_at::<u32>(v.raw, buf, 0);
        lemma_emit_at_frame::<u32>(v.raw, buf, 0);
        assert(b1 == Self::emit_fields(v, buf));
        {
            lemma_at_round_trip::<u32>(v.raw, buf, 0);
            assert(Self::parse_fields(b1) == v);
        }
    }
}

impl SaveBin for PlayTime {
    open spec fn byte_size() -> nat {
        4
    }

    open spec fn well_formed(v: PlayTime) -> bool {
        Self::fields_well_formed(v)
    }

    open spec fn parse(bytes: Seq<u8>) -> PlayTime {
        Self::parse_fields(bytes)
    }

    open spec fn emit(v: PlayTime, buf: Seq<u8>) -> Seq<u8> {
        Self::emit_fields(v, buf)
    }

    open spec fn check(v: PlayTime) -> Result<(), SaveError> {
        Ok(())
    }

    open spec fn canonical(bytes: Seq<u8>) -> bool {
        u32::canonical(bytes.skip(0))
    }

    proof fn lemma_rewrite(bytes: Seq<u8>) {
        let v = Self::parse_fields(bytes);
        lemma_at_rewrite::<u32>(bytes, 0);
    }

    proof fn lemma_parse_well_formed(bytes: Seq<u8>) {
    }

    proof fn lemma_emit_frame(v: PlayTime, buf: Seq<u8>) {
        Self::lemma_fields(v, buf);
    }

    proof fn lemma_parse_local(a: Seq<u8>, b: Seq<u8>) {
        lemma_parse_at_local::<u32>(a, b, 0);
    }

    proof fn lemma_round_trip(v: PlayTime, buf: Seq<u8>) {
        Self::lemma_fields(v, buf);
    }

    fn size() -> (r: usize) {
        4
    }

    fn read_at(bytes: &[u8], off: usize) -> (r: PlayTime) {
        let _ = bytes.len();
        proof {
            lemma_parse_at_shift::<u32>(bytes@, off as int, 0);
        }
        PlayTime {
            raw: u32::read_at(bytes, off),
        }
    }

    fn write_at(&self, bytes: &mut [u8], off: usize) {
        let ghost b = old(bytes)@;
        let _ = bytes.len();
        let ghost a0 = bytes@;
        self.raw.write_at(bytes, off);
        proof {
            let p = b.take(off as int);
            let s0 = b.skip(off as int);
            assert(b =~= p + s0);
            lemma_emit_at_shift::<u32>(self@.raw, p, s0, 0);
        }
    }

    fn validate(&self) -> (r: Result<(), SaveError>) {
        Ok(())
    }
}

/// When the file was saved.
#[derive(Debug, Clone, Copy, PartialEq, Eq)]
pub struct SaveTimestamp {
    pub time: u32,
    pub date: u32,
}

impl View for SaveTimestamp {
    type V = SaveTimestamp;

    open spec fn view(&self) -> SaveTimestamp {
        *self
    }
}

impl SaveTimestamp {
    /// The value whose encoding starts at the beginning of `bytes`.
    pub open spec fn parse_fields(bytes: Seq<u8>) -> SaveTimestamp {
        SaveTimestamp {
            time: parse_at::<u32>(bytes, 0),
            date: parse_at::<u32>(bytes, 4),
        }
    }

    /// `buf` with the encoding of `v` written over its start.
    pub open spec fn emit_fields(v: SaveTimestamp, buf: Seq<u8>) -> Seq<u8> {
        let b1 = emit_at::<u32>(v.time, buf, 0);
        emit_at::<u32>(v.date, b1, 4)
    }

    /// The shape of the arrays of `v`.
    pub open spec fn fields_well_formed(v: SaveTimestamp) -> bool {
        true
    }

    proof fn lemma_fields(v: SaveTimestamp, buf: Seq<u8>)
        requires
            buf.len() >= 8,
            Self::fields_well_formed(v),
        ensures
            changed_only(buf, Self::emit_fields(v, buf), 0, 8),
            Self::parse_fields(Self::emit_fields(v, buf)) == v,
    {
        let b1 = emit_at::<u32>(v.time, buf, 0);
        lemma_emit_at_frame::<u32>(v.time, buf, 0);
        let b2 = emit_at::<u32>(v.date, b1, 4);
        lemma_emit_at_frame::<u32>(v.date, b1, 4);
        assert(b2 == Self::emit_fields(v, buf));
        {
            lemma_at_round_trip::<u32>(v.time, buf, 0);
            lemma_parse_at_local::<u32>(b2, b1, 0);
            lemma_at_round_trip::<u32>(v.date, b1, 4);
            assert(Self::parse_fields(b2) == v);
        }
    }
}

impl SaveBin for SaveTimestamp {
    open spec fn byte_size() -> nat {
        8
    }

    open spec fn well_formed(v: SaveTimestamp) -> bool {
        Self::fields_well_formed(v)
    }

    open spec fn parse(bytes: Seq<u8>) -> SaveTimestamp {
        Self::parse_fields(bytes)
    }

    open spec fn emit(v: SaveTimestamp, buf: Seq<u8>) -> Seq<u8> {
        Self::emit_fields(v, buf)
    }

    open spec fn check(v: SaveTimestamp) -> Result<(), SaveError> {
        Ok(())
    }

    open spec fn canonical(bytes: Seq<u8>) -> bool {
        &&& u32::canonical(bytes.skip(0))
        &&& u32::canonical(bytes.skip(4))
    }

    proof fn lemma_rewrite(bytes: Seq<u8>) {
        let v = Self::parse_fields(bytes);
        lemma_at_rewrite::<u32>(bytes, 0);
        lemma_at_rewrite::<u32>(bytes, 4);
    }

    proof fn lemma_parse_well_formed(bytes: Seq<u8>) {
    }

    proof fn lemma_emit_frame(v: SaveTimestamp, buf: Seq<u8>) {
        Self::lemma_fields(v, buf);
    }

    proof fn lemma_parse_local(a: Seq<u8>, b: Seq<u8>) {
        lemma_parse_at_local::<u32>(a, b, 0);
        lemma_parse_at_local::<u32>(a, b, 4);
    }

    proof fn lemma_round_trip(v: SaveTimestamp, buf: Seq<u8>) {
        Self::lemma_fields(v, buf);
    }

    fn size() -> (r: usize) {
        8
    }

    fn read_at(bytes: &[u8], off: usize) -> (r: SaveTimestamp) {
        let _ = bytes.len();
        proof {
            lemma_parse_at_shift::<u32>(bytes@, off as int, 0);
            lemma_parse_at_shift::<u32>(bytes@, off as int, 4);
        }
        SaveTimestamp {
            time: u32::read_at(bytes, off),
            date: u32::read_at(bytes, off + 4),
        }
    }

    fn write_at(&self, bytes: &mut [u8], off: usize) {
        let ghost b = old(bytes)@;
        let _ = bytes.len();
        let ghost a0 = bytes@;
        self.time.write_at(bytes, off);
        proof {
            lemma_emit_at_frame::<u32>(self@.time, a0, (off) as int);
        }
        let ghost a1 = bytes@;
        self.date.write_at(bytes, off + 4);
        proof {
            let p = b.take(off as int);
            let s0 = b.skip(off as int);
            assert(b =~= p + s0);
            lemma_emit_at_shift::<u32>(self@.time, p, s0, 0);
            let s1 = emit_at::<u32>(self@.time, s0, 0);
            lemma_emit_at_frame::<u32>(self@.time, s0, 0);
            lemma_emit_at_shift::<u32>(self@.date, p, s1, 4);
        }
    }

    fn validate(&self) -> (r: Result<(), SaveError>) {
        Ok(())
    }
}

/// A position in the world.
///
/// Each coordinate is held as the bit pattern of an IEEE 754 single-precision
/// number, which is how the file stores it.
#[derive(Debug, Clone, Copy, PartialEq, Eq)]
pub struct Pos {
    pub x: u32,
    pub y: u32,
    pub z: u32,
}

impl View for Pos {
    type V = Pos;

    open spec fn view(&self) -> Pos {
        *self
    }
}

impl Pos {
    /// The value whose encoding starts at the beginning of `bytes`.
    pub open spec fn parse_fields(bytes: Seq<u8>) -> Pos {
        Pos {
            x: parse_at::<u32>(bytes, 0),
            y: parse_at::<u32>(bytes, 4),
            z: parse_at::<u32>(bytes, 8),
        }
    }

    /// `buf` with the encoding of `v` written over its start.
    pub open spec fn emit_fields(v: Pos, buf: Seq<u8>) -> Seq<u8> {
        let b1 = emit_at::<u32>(v.x, buf, 0);
        let b2 = emit_at::<u32>(v.y, b1, 4);
        emit_at::<u32>(v.z, b2, 8)
    }

    /// The shape of the arrays of `v`.
    pub open spec fn fields_well_formed(v: Pos) -> bool {
        true
    }

    proof fn lemma_fields(v: Pos, buf: Seq<u8>)
        requires
            buf.len() >= 12,
            Self::fields_well_formed(v),
        ensures
            changed_only(buf, Self::emit_fields(v, buf), 0, 12),
            Self::parse_fields(Self::emit_fields(v, buf)) == v,
    {
        let b1 = emit_at::<u32>(v.x, buf, 0);
        lemma_emit_at_frame::<u32>(v.x, buf, 0);
        let b2 = emit_at::<u32>(v.y, b1, 4);
        lemma_emit_at_frame::<u32>(v.y, b1, 4);
        let b3 = emit_at::<u32>(v.z, b2, 8);
        lemma_emit_at_frame::<u32>(v.z, b2, 8);
        assert(b3 == Self::emit_fields(v, buf));
        {
            lemma_at_round_trip::<u32>(v.x, buf, 0);
            lemma_parse_at_local::<u32>(b3, b1, 0);
            lemma_at_round_trip::<u32>(v.y, b1, 4);
            lemma_parse_at_local::<u32>(b3, b2, 4);
            lemma_at_round_trip::<u32>(v.z, b2, 8);
            assert(Self::parse_fields(b3) == v);
        }
    }
}

impl SaveBin for Pos {
    open spec fn byte_size() -> nat {
        12
    }

    open spec fn well_formed(v: Pos) -> bool {
        Self::fields_well_formed(v)
    }

    open spec fn parse(bytes: Seq<u8>) -> Pos {
        Self::parse_fields(bytes)
    }

    open spec fn emit(v: Pos, buf: Seq<u8>) -> Seq<u8> {
        Self::emit_fields(v, buf)
    }

    open spec fn check(v: Pos) -> Result<(), SaveError> {
        Ok(())
    }

    open spec fn canonical(bytes: Seq<u8>) -> bool {
        &&& u32::canonical(bytes.skip(0))
        &&& u32::canonical(bytes.skip(4))
        &&& u32::canonical(bytes.skip(8))
    }

    proof fn lemma_rewrite(bytes: Seq<u8>) {
        let v = Self::parse_fields(bytes);
        lemma_at_rewrite::<u32>(bytes, 0);
        lemma_at_rewrite::<u32>(bytes, 4);
        lemma_at_rewrite::<u32>(bytes, 8);
    }

    proof fn lemma_parse_well_formed(bytes: Seq<u8>) {
    }

    proof fn lemma_emit_frame(v: Pos, buf: Seq<u8>) {
        Self::lemma_fields(v, buf);
    }

    proof fn lemma_parse_local(a: Seq<u8>, b: Seq<u8>) {
        lemma_parse_at_local::<u32>(a, b, 0);
        lemma_parse_at_local::<u32>(a, b, 4);
        lemma_parse_at_local::<u32>(a, b, 8);
    }

    proof fn lemma_round_trip(v: Pos, buf: Seq<u8>) {
        Self::lemma_fields(v, buf);
    }

    fn size() -> (r: usize) {
        12
    }

    fn read_at(bytes: &[u8], off: usize) -> (r: Pos) {
        let _ = bytes.len();
        proof {
            lemma_parse_at_shift::<u32>(bytes@, off as int, 0);
            lemma_parse_at_shift::<u32>(bytes@, off as int, 4);
            lemma_parse_at_shift::<u32>(bytes@, off as int, 8);
        }
        Pos {
            x: u32::read_at(bytes, off),
            y: u32::read_at(bytes, off + 4),
            z: u32::read_at(bytes, off + 8),
        }
    }

    fn write_at(&self, bytes: &mut [u8], off: usize) {
        let ghost b = old(bytes)@;
        let _ = bytes.len();
        let ghost a0 = bytes@;
        self.x.write_at(bytes, off);
        proof {
            lemma_emit_at_frame::<u32>(self@.x, a0, (off) as int);
        }
        let ghost a1 = bytes@;
        self.y.write_at(bytes, off + 4);
        proof {
            lemma_emit_at_frame::<u32>(self@.y, a1, (off + 4) as int);
        }
        let ghost a2 = bytes@;
        self.z.write_at(bytes, off + 8);
        proof {
            let p = b.take(off as int);
            let s0 = b.skip(off as int);
            assert(b =~= p + s0);
            lemma_emit_at_shift::<u32>(self@.x, p, s0, 0);
            let s1 = emit_at::<u32>(self@.x, s0, 0);
            lemma_emit_at_frame::<u32>(self@.x, s0, 0);
            lemma_emit_at_shift::<u32>(self@.y, p, s1, 4);
            let s2 = emit_at::<u32>(self@.y, s1, 4);
            lemma_emit_at_frame::<u32>(self@.y, s1, 4);
            lemma_emit_at_shift::<u32>(self@.z, p, s2, 8);
        }
    }

    fn validate(&self) -> (r: Result<(), SaveError>) {
        Ok(())
    }
}

/// The in-game time of day.
#[derive(Debug, Clone, Copy, PartialEq, Eq)]
pub struct MapTime {
    pub hour: u16,
    pub minute: u16,
}

impl View for MapTime {
    type V = MapTime;

    open spec fn view(&self) -> MapTime {
        *self
    }
}

impl MapTime {
    /// The value whose encoding starts at the beginning of `bytes`.
    pub open spec fn parse_fields(bytes: Seq<u8>) -> MapTime {
        MapTime {
            hour: parse_at::<u16>(bytes, 0),
            minute: parse_at::<u16>(bytes, 2),
        }
    }

    /// `buf` with the encoding of `v` written over its start.
    pub open spec fn emit_fields(v: MapTime, buf: Seq<u8>) -> Seq<u8> {
        let b1 = emit_at::<u16>(v.hour, buf, 0);
        emit_at::<u16>(v.minute, b1, 2)
    }

    /// The shape of the arrays of `v`.
    pub open spec fn fields_well_formed(v: MapTime) -> bool {
        true
    }

    proof fn lemma_fields(v: MapTime, buf: Seq<u8>)
        requires
            buf.len() >= 4,
            Self::fields_well_formed(v),
        ensures
            changed_only(buf, Self::emit_fields(v, buf), 0, 4),
            Self::parse_fields(Self::emit_fields(v, buf)) == v,
    {
        let b1 = emit_at::<u16>(v.hour, buf, 0);
        lemma_emit_at_frame::<u16>(v.hour, buf, 0);
        let b2 = emit_at::<u16>(v.minute, b1, 2);
        lemma_emit_at_frame::<u16>(v.minute, b1, 2);
        assert(b2 == Self::emit_fields(v, buf));
        {
            lemma_at_round_trip::<u16>(v.hour, buf, 0);
            lemma_parse_at_local::<u16>(b2, b1, 0);
            lemma_at_round_trip::<u16>(v.minute, b1, 2);
            assert(Self::parse_fields(b2) == v);
        }
    }
}

impl SaveBin for MapTime {
    open spec fn byte_size() -> nat {
        4
    }

    open spec fn well_formed(v: MapTime) -> bool {
        Self::fields_well_formed(v)
    }

    open spec fn parse(bytes: Seq<u8>) -> MapTime {
        Self::parse_fields(bytes)
    }

    open spec fn emit(v: MapTime, buf: Seq<u8>) -> Seq<u8> {
        Self::emit_fields(v, buf)
    }

    open spec fn check(v: MapTime) -> Result<(), SaveError> {
        Ok(())
    }

    open spec fn canonical(bytes: Seq<u8>) -> bool {
        &&& u16::canonical(bytes.skip(0))
        &&& u16::canonical(bytes.skip(2))
    }

    proof fn lemma_rewrite(bytes: Seq<u8>) {
        let v = Self::parse_fields(bytes);
        lemma_at_rewrite::<u16>(bytes, 0);
        lemma_at_rewrite::<u16>(bytes, 2);
    }

    proof fn lemma_parse_well_formed(bytes: Seq<u8>) {
    }

    proof fn lemma_emit_frame(v: MapTime, buf: Seq<u8>) {
        Self::lemma_fields(v, buf);
    }

    proof fn lemma_parse_local(a: Seq<u8>, b: Seq<u8>) {
        lemma_parse_at_local::<u16>(a, b, 0);
        lemma_parse_at_local::<u16>(a, b, 2);
    }

    proof fn lemma_round_trip(v: MapTime, buf: Seq<u8>) {
        Self::lemma_fields(v, buf);
    }

    fn size() -> (r: usize) {
        4
    }

    fn read_at(bytes: &[u8], off: usize) -> (r: MapTime) {
        let _ = bytes.len();
        proof {
            lemma_parse_at_shift::<u16>(bytes@, off as int, 0);
            lemma_parse_at_shift::<u16>(bytes@, off as int, 2);
        }
        MapTime {
            hour: u16::read_at(bytes, off),
            minute: u16::read_at(bytes, off + 2),
        }
    }

    fn write_at(&self, bytes: &mut [u8], off: usize) {
        let ghost b = old(bytes)@;
        let _ = bytes.len();
        let ghost a0 = bytes@;
        self.hour.write_at(bytes, off);
        proof {
            lemma_emit_at_frame::<u16>(self@.hour, a0, (off) as int);
        }
        let ghost a1 = bytes@;
        self.minute.write_at(bytes, off + 2);
        proof {
            let p = b.take(off as int);
            let s0 = b.skip(off as int);
            assert(b =~= p + s0);
            lemma_emit_at_shift::<u16>(self@.hour, p, s0, 0);
            let s1 = emit_at::<u16>(self@.hour, s0, 0);
            lemma_emit_at_frame::<u16>(self@.hour, s0, 0);
            lemma_emit_at_shift::<u16>(self@.minute, p, s1, 2);
        }
    }

    fn validate(&self) -> (r: Result<(), SaveError>) {
        Ok(())
    }
}

/// The header of a save file: format tags, play statistics and the player's
/// whereabouts.
#[derive(Debug, Clone, Copy, PartialEq, Eq)]
pub struct SaveData {
    /// The format's magic number, [`SAVE_MAGIC`].
    pub magic: u32,
    /// The format version, [`SAVE_VERSION`].
    pub save_version: u8,
    pub play_time: PlayTime,
    pub timestamp: SaveTimestamp,
    pub gold: u32,
    /// Saved event flow ID for end-of-chapter saves.
    pub saved_event_flow: u32,
    pub map_id: u16,
    pub map_time: MapTime,
    pub player_pos: Pos,
}

impl View for SaveData {
    type V = SaveData;

    open spec fn view(&self) -> SaveData {
        *self
    }
}

impl SaveData {
    /// The value whose encoding starts at the beginning of `bytes`.
    pub open spec fn parse_fields(bytes: Seq<u8>) -> SaveData {
        SaveData {
            magic: parse_at::<u32>(bytes, 0),
            save_version: parse_at::<u8>(bytes, 4),
            play_time: parse_at::<PlayTime>(bytes, 16),
            timestamp: parse_at::<SaveTimestamp>(bytes, 24),
            gold: parse_at::<u32>(bytes, 32),
            saved_event_flow: parse_at::<u32>(bytes, 1668),
            map_id: parse_at::<u16>(bytes, 1676),
            map_time: parse_at::<MapTime>(bytes, 1678),
            player_pos: parse_at::<Pos>(bytes, 1696),
        }
    }

    /// `buf` with the encoding of `v` written over its start.
    pub open spec fn emit_fields(v: SaveData, buf: Seq<u8>) -> Seq<u8> {
        let b1 = emit_at::<u32>(v.magic, buf, 0);
        let b2 = emit_at::<u8>(v.save_version, b1, 4);
        let b3 = emit_at::<PlayTime>(v.play_time, b2, 16);
        let b4 = emit_at::<SaveTimestamp>(v.timestamp, b3, 24);
        let b5 = emit_at::<u32>(v.gold, b4, 32);
        let b6 = emit_at::<u32>(v.saved_event_flow, b5, 1668);
        let b7 = emit_at::<u16>(v.map_id, b6, 1676);
        let b8 = emit_at::<MapTime>(v.map_time, b7, 1678);
        emit_at::<Pos>(v.player_pos, b8, 1696)
    }

    /// The shape of the arrays of `v`.
    pub open spec fn fields_well_formed(v: SaveData) -> bool {
        &&& PlayTime::well_formed(v.play_time)
        &&& SaveTimestamp::well_formed(v.timestamp)
        &&& MapTime::well_formed(v.map_time)
        &&& Pos::well_formed(v.player_pos)
    }

    #[verifier::spinoff_prover]
    #[verifier::rlimit(80)]
    proof fn lemma_fields(v: SaveData, buf: Seq<u8>)
        requires
            buf.len() >= 1708,
            Self::fields_well_formed(v),
        ensures
            changed_only(buf, Self::emit_fields(v, buf), 0, 1708),
            Self::parse_fields(Self::emit_fields(v, buf)) == v,
    {
        let b1 = emit_at::<u32>(v.magic, buf, 0);
        lemma_emit_at_frame::<u32>(v.magic, buf, 0);
        let b2 = emit_at::<u8>(v.save_version, b1, 4);
        lemma_emit_at_frame::<u8>(v.save_version, b1, 4);
        let b3 = emit_at::<PlayTime>(v.play_time, b2, 16);
        lemma_emit_at_frame::<PlayTime>(v.play_time, b2, 16);
        let b4 = emit_at::<SaveTimestamp>(v.timestamp, b3, 24);
        lemma_emit_at_frame::<SaveTimestamp>(v.timestamp, b3, 24);
        let b5 = emit_at::<u32>(v.gold, b4, 32);
        lemma_emit_at_frame::<u32>(v.gold, b4, 32);
        let b6 = emit_at::<u32>(v.saved_event_flow, b5, 1668);
        lemma_emit_at_frame::<u32>(v.saved_event_flow, b5, 1668);
        let b7 = emit_at::<u16>(v.map_id, b6, 1676);
        lemma_emit_at_frame::<u16>(v.map_id, b6, 1676);
        let b8 = emit_at::<MapTime>(v.map_time, b7, 1678);
        lemma_emit_at_frame::<MapTime>(v.map_time, b7, 1678);
        let b9 = emit_at::<Pos>(v.player_pos, b8, 1696);
        lemma_emit_at_frame::<Pos>(v.player_pos, b8, 1696);
        assert(b9 == Self::emit_fields(v, buf));
        {
            lemma_at_round_trip::<u32>(v.magic, buf, 0);
            lemma_parse_at_local::<u32>(b9, b1, 0);
            lemma_at_round_trip::<u8>(v.save_version, b1, 4);
            lemma_parse_at_local::<u8>(b9, b2, 4);
            lemma_at_round_trip::<PlayTime>(v.play_time, b2, 16);
            lemma_parse_at_local::<PlayTime>(b9, b3, 16);
            lemma_at_round_trip::<SaveTimestamp>(v.timestamp, b3, 24);
            lemma_parse_at_local::<SaveTimestamp>(b9, b4, 24);
            lemma_at_round_trip::<u32>(v.gold, b4, 32);
            lemma_parse_at_local::<u32>(b9, b5, 32);
            lemma_at_round_trip::<u32>(v.saved_event_flow, b5, 1668);
            lemma_parse_at_local::<u32>(b9, b6, 1668);
            lemma_at_round_trip::<u16>(v.map_id, b6, 1676);
            lemma_parse_at_local::<u16>(b9, b7, 1676);
            lemma_at_round_trip::<MapTime>(v.map_time, b7, 1678);
            lemma_parse_at_local::<MapTime>(b9, b8, 1678);
            lemma_at_round_trip::<Pos>(v.player_pos, b8, 1696);
            assert(Self::parse_fields(b9) == v);
        }
    }
}

impl SaveBin for SaveData {
    open spec fn byte_size() -> nat {
        1708
    }

    open spec fn well_formed(v: SaveData) -> bool {
        Self::fields_well_formed(v)
    }

    open spec fn parse(bytes: Seq<u8>) -> SaveData {
        Self::parse_fields(bytes)
    }

    open spec fn emit(v: SaveData, buf: Seq<u8>) -> Seq<u8> {
        Self::emit_fields(v, buf)
    }

    open spec fn check(v: SaveData) -> Result<(), SaveError> {
        if v.magic != SAVE_MAGIC {
            Err(SaveError::UnrecognizedFormat)
        } else if v.save_version != SAVE_VERSION {
            Err(SaveError::UnsupportedVersion(v.save_version as u32, SAVE_VERSION as u32))
        } else {
            Ok(())
        }
    }

    open spec fn canonical(bytes: Seq<u8>) -> bool {
        &&& u32::canonical(bytes.skip(0))
        &&& u8::canonical(bytes.skip(4))
        &&& PlayTime::canonical(bytes.skip(16))
        &&& SaveTimestamp::canonical(bytes.skip(24))
        &&& u32::canonical(bytes.skip(32))
        &&& u32::canonical(bytes.skip(1668))
        &&& u16::canonical(bytes.skip(1676))
        &&& MapTime::canonical(bytes.skip(1678))
        &&& Pos::canonical(bytes.skip(1696))
    }

    proof fn lemma_rewrite(bytes: Seq<u8>) {
        let v = Self::parse_fields(bytes);
        lemma_at_rewrite::<u32>(bytes, 0);
        lemma_at_rewrite::<u8>(bytes, 4);
        lemma_at_rewrite::<PlayTime>(bytes, 16);
        lemma_at_rewrite::<SaveTimestamp>(bytes, 24);
        lemma_at_rewrite::<u32>(bytes, 32);
        lemma_at_rewrite::<u32>(bytes, 1668);
        lemma_at_rewrite::<u16>(bytes, 1676);
        lemma_at_rewrite::<MapTime>(bytes, 1678);
        lemma_at_rewrite::<Pos>(bytes, 1696);
    }

    proof fn lemma_parse_well_formed(bytes: Seq<u8>) {
        PlayTime::lemma_parse_well_formed(bytes.skip(16));
        SaveTimestamp::lemma_parse_well_formed(bytes.skip(24));
        MapTime::lemma_parse_well_formed(bytes.skip(1678));
        Pos::lemma_parse_well_formed(bytes.skip(1696));
    }

    proof fn lemma_emit_frame(v: SaveData, buf: Seq<u8>) {
        Self::lemma_fields(v, buf);
    }

    proof fn lemma_parse_local(a: Seq<u8>, b: Seq<u8>) {
        lemma_parse_at_local::<u32>(a, b, 0);
        lemma_parse_at_local::<u8>(a, b, 4);
        lemma_parse_at_local::<PlayTime>(a, b, 16);
        lemma_parse_at_local::<SaveTimestamp>(a, b, 24);
        lemma_parse_at_local::<u32>(a, b, 32);
        lemma_parse_at_local::<u32>(a, b, 1668);
        lemma_parse_at_local::<u16>(a, b, 1676);
        lemma_parse_at_local::<MapTime>(a, b, 1678);
        lemma_parse_at_local::<Pos>(a, b, 1696);
    }

    proof fn lemma_round_trip(v: SaveData, buf: Seq<u8>) {
        Self::lemma_fields(v, buf);
    }

    fn size() -> (r: usize) {
        1708
    }

    fn read_at(bytes: &[u8], off: usize) -> (r: SaveData) {
        let _ = bytes.len();
        proof {
            lemma_parse_at_shift::<u32>(bytes@, off as int, 0);
            lemma_parse_at_shift::<u8>(bytes@, off as int, 4);
            lemma_parse_at_shift::<PlayTime>(bytes@, off as int, 16);
            lemma_parse_at_shift::<SaveTimestamp>(bytes@, off as int, 24);
            lemma_parse_at_shift::<u32>(bytes@, off as int, 32);
            lemma_parse_at_shift::<u32>(bytes@, off as int, 1668);
            lemma_parse_at_shift::<u16>(bytes@, off as int, 1676);
            lemma_parse_at_shift::<MapTime>(bytes@, off as int, 1678);
            lemma_parse_at_shift::<Pos>(bytes@, off as int, 1696);
        }
        SaveData {
            magic: u32::read_at(bytes, off),
            save_version: u8::read_at(bytes, off + 4),
            play_time: PlayTime::read_at(bytes, off + 16),
            timestamp: SaveTimestamp::read_at(bytes, off + 24),
            gold: u32::read_at(bytes, off + 32),
            saved_event_flow: u32::read_at(bytes, off + 1668),
            map_id: u16::read_at(bytes, off + 1676),
            map_time: MapTime::read_at(bytes, off + 1678),
            player_pos: Pos::read_at(bytes, off + 1696),
        }
    }

    #[verifier::spinoff_prover]
    #[verifier::rlimit(80)]
    fn write_at(&self, bytes: &mut [u8], off: usize) {
        let ghost b = old(bytes)@;
        let _ = bytes.len();
        let ghost a0 = bytes@;
        self.magic.write_at(bytes, off);
        proof {
            lemma_emit_at_frame::<u32>(self@.magic, a0, (off) as int);
        }
        let ghost a1 = bytes@;
        self.save_version.write_at(bytes, off + 4);
        proof {
            lemma_emit_at_frame::<u8>(self@.save_version, a1, (off + 4) as int);
        }
        let ghost a2 = bytes@;
        self.play_time.write_at(bytes, off + 16);
        proof {
            lemma_emit_at_frame::<PlayTime>(self@.play_time, a2, (off + 16) as int);
        }
        let ghost a3 = bytes@;
        self.timestamp.write_at(bytes, off + 24);
        proof {
            lemma_emit_at_frame::<SaveTimestamp>(self@.timestamp, a3, (off + 24) as int);
        }
        let ghost a4 = bytes@;
        self.gold.write_at(bytes, off + 32);
        proof {
            lemma_emit_at_frame::<u32>(self@.gold, a4, (off + 32) as int);
        }
        let ghost a5 = bytes@;
        self.saved_event_flow.write_at(bytes, off + 1668);
        proof {
            lemma_emit_at_frame::<u32>(self@.saved_event_flow, a5, (off + 1668) as int);
        }
        let ghost a6 = bytes@;
        self.map_id.write_at(bytes, off + 1676);
        proof {
            lemma_emit_at_frame::<u16>(self@.map_id, a6, (off + 1676) as int);
        }
        let ghost a7 = bytes@;
        self.map_time.write_at(bytes, off + 1678);
        proof {
            lemma_emit_at_frame::<MapTime>(self@.map_time, a7, (off + 1678) as int);
        }
        let ghost a8 = bytes@;
        self.player_pos.write_at(bytes, off + 1696);
        proof {
            let p = b.take(off as int);
            let s0 = b.skip(off as int);
            assert(b =~= p + s0);
            lemma_emit_at_shift::<u32>(self@.magic, p, s0, 0);
            let s1 = emit_at::<u32>(self@.magic, s0, 0);
            lemma_emit_at_frame::<u32>(self@.magic, s0, 0);
            lemma_emit_at_shift::<u8>(self@.save_version, p, s1, 4);
            let s2 = emit_at::<u8>(self@.save_version, s1, 4);
            lemma_emit_at_frame::<u8>(self@.save_version, s1, 4);
            lemma_emit_at_shift::<PlayTime>(self@.play_time, p, s2, 16);
            let s3 = emit_at::<PlayTime>(self@.play_time, s2, 16);
            lemma_emit_at_frame::<PlayTime>(self@.play_time, s2, 16);
            lemma_emit_at_shift::<SaveTimestamp>(self@.timestamp, p, s3, 24);
            let s4 = emit_at::<SaveTimestamp>(self@.timestamp, s3, 24);
            lemma_emit_at_frame::<SaveTimestamp>(self@.timestamp, s3, 24);
            lemma_emit_at_shift::<u32>(self@.gold, p, s4, 32);
            let s5 = emit_at::<u32>(self@.gold, s4, 32);
            lemma_emit_at_frame::<u32>(self@.gold, s4, 32);
            lemma_emit_at_shift::<u32>(self@.saved_event_flow, p, s5, 1668);
            let s6 = emit_at::<u32>(self@.saved_event_flow, s5, 1668);
            lemma_emit_at_frame::<u32>(self@.saved_event_flow, s5, 1668);
            lemma_emit_at_shift::<u16>(self@.map_id, p, s6, 1676);
            let s7 = emit_at::<u16>(self@.map_id, s6, 1676);
            lemma_emit_at_frame::<u16>(self@.map_id, s6, 1676);
            lemma_emit_at_shift::<MapTime>(self@.map_time, p, s7, 1678);
            let s8 = emit_at::<MapTime>(self@.map_time, s7, 1678);
            lemma_emit_at_frame::<MapTime>(self@.map_time, s7, 1678);
            lemma_emit_at_shift::<Pos>(self@.player_pos, p, s8, 1696);
        }
    }

    fn validate(&self) -> (r: Result<(), SaveError>) {
        if self.magic != SAVE_MAGIC {
            Err(SaveError::UnrecognizedFormat)
        } else if self.save_version != SAVE_VERSION {
            Err(SaveError::UnsupportedVersion(self.save_version as u32, SAVE_VERSION as u32))
        } else {
            Ok(())
        }
    }
}


/// A save file is accepted only with the magic number and the supported
/// version: a wrong magic number gives `UnrecognizedFormat`, and a wrong
/// version byte gives `UnsupportedVersion` with the version found.
pub proof fn lemma_header_enforced(bytes: Seq<u8>)
    requires
        bytes.len() >= SaveData::byte_size(),
    ensures
        u32_from_bytes(bytes[0], bytes[1], bytes[2], bytes[3]) != SAVE_MAGIC ==> SaveData::check(
            SaveData::parse(bytes),
        ) == Err::<(), SaveError>(SaveError::UnrecognizedFormat),
        u32_from_bytes(bytes[0], bytes[1], bytes[2], bytes[3]) == SAVE_MAGIC && bytes[4]
            != SAVE_VERSION ==> SaveData::check(SaveData::parse(bytes)) == Err::<(), SaveError>(
            SaveError::UnsupportedVersion(bytes[4] as u32, SAVE_VERSION as u32),
        ),
        u32_from_bytes(bytes[0], bytes[1], bytes[2], bytes[3]) == SAVE_MAGIC && bytes[4]
            == SAVE_VERSION ==> SaveData::check(SaveData::parse(bytes)) is Ok,
{
    assert(bytes.skip(0)[0] == bytes[0] && bytes.skip(0)[1] == bytes[1] && bytes.skip(0)[2]
        == bytes[2] && bytes.skip(0)[3] == bytes[3]);
    assert(bytes.skip(4)[0] == bytes[4]);
}

} // verus!
