//! Little-endian encodings of the integer field types.
use vstd::prelude::*;

use crate::codec::SaveBin;
use crate::error::SaveError;

verus! {

pub open spec fn u16_from_bytes(b0: u8, b1: u8) -> u16 {
    (b0 as u16) | ((b1 as u16) << 8u16)
}

pub open spec fn u16_byte(v: u16, k: u16) -> u8 {
    ((v >> (8 * k)) & 0xffu16) as u8
}

pub open spec fn u32_from_bytes(b0: u8, b1: u8, b2: u8, b3: u8) -> u32 {
    (b0 as u32) | ((b1 as u32) << 8u32) | ((b2 as u32) << 16u32) | ((b3 as u32) << 24u32)
}

pub open spec fn u32_byte(v: u32, k: u32) -> u8 {
    ((v >> (8 * k)) & 0xffu32) as u8
}

impl SaveBin for u8 {
    open spec fn byte_size() -> nat {
        1
    }

    open spec fn well_formed(v: u8) -> bool {
        true
    }

    open spec fn parse(bytes: Seq<u8>) -> u8 {
        bytes[0]
    }

    open spec fn emit(v: u8, buf: Seq<u8>) -> Seq<u8> {
        buf.update(0, v)
    }

    open spec fn check(v: u8) -> Result<(), SaveError> {
        Ok(())
    }

    open spec fn canonical(bytes: Seq<u8>) -> bool {
        true
    }

    proof fn lemma_rewrite(bytes: Seq<u8>) {
        assert(Self::emit(Self::parse(bytes), bytes) =~= bytes);
    }

    proof fn lemma_parse_well_formed(bytes: Seq<u8>) {
    }

    proof fn lemma_emit_frame(v: u8, buf: Seq<u8>) {
    }

    proof fn lemma_parse_local(a: Seq<u8>, b: Seq<u8>) {
        assert(a[0] == b[0]);
    }

    proof fn lemma_round_trip(v: u8, buf: Seq<u8>) {
    }

    fn size() -> (r: usize) {
        1
    }

    fn read_at(bytes: &[u8], off: usize) -> (r: u8) {
        bytes[off]
    }

    fn write_at(&self, bytes: &mut [u8], off: usize) {
        let ghost b = old(bytes)@;
        bytes[off] = *self;
        proof {
            assert(bytes@ =~= b.take(off as int) + Self::emit(*self, b.skip(off as int)));
        }
    }

    fn validate(&self) -> (r: Result<(), SaveError>) {
        Ok(())
    }
}

impl SaveBin for bool {
    open spec fn byte_size() -> nat {
        1
    }

    open spec fn well_formed(v: bool) -> bool {
        true
    }

    /// Any nonzero byte reads as `true`.
    open spec fn parse(bytes: Seq<u8>) -> bool {
        bytes[0] != 0
    }

    open spec fn emit(v: bool, buf: Seq<u8>) -> Seq<u8> {
        buf.update(0, if v { 1u8 } else { 0u8 })
    }

    open spec fn check(v: bool) -> Result<(), SaveError> {
        Ok(())
    }

    open spec fn canonical(bytes: Seq<u8>) -> bool {
        bytes[0] <= 1
    }

    proof fn lemma_rewrite(bytes: Seq<u8>) {
        assert(Self::emit(Self::parse(bytes), bytes) =~= bytes);
    }

    proof fn lemma_parse_well_formed(bytes: Seq<u8>) {
    }

    proof fn lemma_emit_frame(v: bool, buf: Seq<u8>) {
    }

    proof fn lemma_parse_local(a: Seq<u8>, b: Seq<u8>) {
        assert(a[0] == b[0]);
    }

    proof fn lemma_round_trip(v: bool, buf: Seq<u8>) {
    }

    fn size() -> (r: usize) {
        1
    }

    fn read_at(bytes: &[u8], off: usize) -> (r: bool) {
        bytes[off] != 0
    }

    fn write_at(&self, bytes: &mut [u8], off: usize) {
        let ghost b = old(bytes)@;
        bytes[off] = if *self { 1 } else { 0 };
        proof {
            assert(bytes@ =~= b.take(off as int) + Self::emit(*self, b.skip(off as int)));
        }
    }

    fn validate(&self) -> (r: Result<(), SaveError>) {
        Ok(())
    }
}

impl SaveBin for u16 {
    open spec fn byte_size() -> nat {
        2
    }

    open spec fn well_formed(v: u16) -> bool {
        true
    }

    open spec fn parse(bytes: Seq<u8>) -> u16 {
        u16_from_bytes(bytes[0], bytes[1])
    }

    open spec fn emit(v: u16, buf: Seq<u8>) -> Seq<u8> {
        buf.update(0, u16_byte(v, 0)).update(1, u16_byte(v, 1))
    }

    open spec fn check(v: u16) -> Result<(), SaveError> {
        Ok(())
    }

    open spec fn canonical(bytes: Seq<u8>) -> bool {
        true
    }

    proof fn lemma_rewrite(bytes: Seq<u8>) {
        let (b0, b1) = (bytes[0], bytes[1]);
        assert(((u16_from_bytes(b0, b1) >> 0u16) & 0xffu16) as u8 == b0 && ((u16_from_bytes(b0, b1)
            >> 8u16) & 0xffu16) as u8 == b1) by (bit_vector);
        assert(Self::emit(Self::parse(bytes), bytes) =~= bytes);
    }

    proof fn lemma_parse_well_formed(bytes: Seq<u8>) {
    }

    proof fn lemma_emit_frame(v: u16, buf: Seq<u8>) {
    }

    proof fn lemma_parse_local(a: Seq<u8>, b: Seq<u8>) {
        assert(a[0] == b[0] && a[1] == b[1]);
    }

    proof fn lemma_round_trip(v: u16, buf: Seq<u8>) {
        let e = Self::emit(v, buf);
        assert(e[0] == u16_byte(v, 0) && e[1] == u16_byte(v, 1));
        assert(u16_from_bytes(((v >> 0u16) & 0xffu16) as u8, ((v >> 8u16) & 0xffu16) as u8) == v)
            by (bit_vector);
    }

    fn size() -> (r: usize) {
        2
    }

    fn read_at(bytes: &[u8], off: usize) -> (r: u16) {
        (bytes[off] as u16) | ((bytes[off + 1] as u16) << 8u16)
    }

    fn write_at(&self, bytes: &mut [u8], off: usize) {
        let ghost b = old(bytes)@;
        let v = *self;
        bytes[off] = (v & 0xff) as u8;
        bytes[off + 1] = ((v >> 8u16) & 0xff) as u8;
        proof {
            assert(((v >> (8 * 0u16)) & 0xffu16) == (v & 0xffu16)) by (bit_vector);
            assert(bytes@ =~= b.take(off as int) + Self::emit(v, b.skip(off as int)));
        }
    }

    fn validate(&self) -> (r: Result<(), SaveError>) {
        Ok(())
    }
}

impl SaveBin for u32 {
    open spec fn byte_size() -> nat {
        4
    }

    open spec fn well_formed(v: u32) -> bool {
        true
    }

    open spec fn parse(bytes: Seq<u8>) -> u32 {
        u32_from_bytes(bytes[0], bytes[1], bytes[2], bytes[3])
    }

    open spec fn emit(v: u32, buf: Seq<u8>) -> Seq<u8> {
        buf.update(0, u32_byte(v, 0)).update(1, u32_byte(v, 1)).update(2, u32_byte(v, 2)).update(
            3,
            u32_byte(v, 3),
        )
    }

    open spec fn check(v: u32) -> Result<(), SaveError> {
        Ok(())
    }

    open spec fn canonical(bytes: Seq<u8>) -> bool {
        true
    }

    proof fn lemma_rewrite(bytes: Seq<u8>) {
        let (b0, b1, b2, b3) = (bytes[0], bytes[1], bytes[2], bytes[3]);
        let v = u32_from_bytes(b0, b1, b2, b3);
        assert(((u32_from_bytes(b0, b1, b2, b3) >> 0u32) & 0xffu32) as u8 == b0 && ((u32_from_bytes(
            b0,
            b1,
            b2,
            b3,
        ) >> 8u32) & 0xffu32) as u8 == b1 && ((u32_from_bytes(b0, b1, b2, b3) >> 16u32)
            & 0xffu32) as u8 == b2 && ((u32_from_bytes(b0, b1, b2, b3) >> 24u32) & 0xffu32) as u8
            == b3) by (bit_vector);
        assert(Self::emit(Self::parse(bytes), bytes) =~= bytes);
    }

    proof fn lemma_parse_well_formed(bytes: Seq<u8>) {
    }

    proof fn lemma_emit_frame(v: u32, buf: Seq<u8>) {
    }

    proof fn lemma_parse_local(a: Seq<u8>, b: Seq<u8>) {
        assert(a[0] == b[0] && a[1] == b[1] && a[2] == b[2] && a[3] == b[3]);
    }

    proof fn lemma_round_trip(v: u32, buf: Seq<u8>) {
        let e = Self::emit(v, buf);
        assert(e[0] == u32_byte(v, 0) && e[1] == u32_byte(v, 1) && e[2] == u32_byte(v, 2) && e[3]
            == u32_byte(v, 3));
        assert(u32_from_bytes(
            ((v >> 0u32) & 0xffu32) as u8,
            ((v >> 8u32) & 0xffu32) as u8,
            ((v >> 16u32) & 0xffu32) as u8,
            ((v >> 24u32) & 0xffu32) as u8,
        ) == v) by (bit_vector);
    }

    fn size() -> (r: usize) {
        4
    }

    fn read_at(bytes: &[u8], off: usize) -> (r: u32) {
        (bytes[off] as u32) | ((bytes[off + 1] as u32) << 8u32) | ((bytes[off + 2] as u32) << 16u32)
            | ((bytes[off + 3] as u32) << 24u32)
    }

    fn write_at(&self, bytes: &mut [u8], off: usize) {
        let ghost b = old(bytes)@;
        let v = *self;
        bytes[off] = (v & 0xff) as u8;
        bytes[off + 1] = ((v >> 8u32) & 0xff) as u8;
        bytes[off + 2] = ((v >> 16u32) & 0xff) as u8;
        bytes[off + 3] = ((v >> 24u32) & 0xff) as u8;
        proof {
            assert(((v >> (8 * 0u32)) & 0xffu32) == (v & 0xffu32)) by (bit_vector);
            assert(bytes@ =~= b.take(off as int) + Self::emit(v, b.skip(off as int)));
        }
    }

    fn validate(&self) -> (r: Result<(), SaveError>) {
        Ok(())
    }
}

} // verus!
