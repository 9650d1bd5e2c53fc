//! The binary codec: every record type reads itself from a fixed-size byte
//! range and writes itself back into one.
//!
//! A type's encoding is described by two spec functions over byte sequences:
//! `parse` reads a model value from the start of a buffer, and `emit` writes a
//! model value over the start of a buffer, leaving every byte past the type's
//! size untouched. Records place their fields with [`parse_at`] and
//! [`emit_at`], and fixed-count arrays with [`parse_seq`] and [`emit_seq`].
use vstd::prelude::*;

use crate::error::SaveError;

verus! {

/// Bytes `lo..hi` of `a` and `b` are equal.
pub open spec fn same_range(a: Seq<u8>, b: Seq<u8>, lo: int, hi: int) -> bool {
    forall|i: int| lo <= i < hi ==> #[trigger] a[i] == b[i]
}

/// `b` has the length of `a` and differs from it at most in bytes `lo..hi`.
pub open spec fn changed_only(a: Seq<u8>, b: Seq<u8>, lo: int, hi: int) -> bool {
    &&& b.len() == a.len()
    &&& forall|i: int| 0 <= i < a.len() && !(lo <= i < hi) ==> #[trigger] b[i] == a[i]
}

/// A type with a fixed-size, fixed-layout binary encoding.
pub trait SaveBin: View + Sized {
    /// The encoded size in bytes.
    spec fn byte_size() -> nat;

    /// The shape of a model value that this type can encode (array lengths).
    spec fn well_formed(v: Self::V) -> bool;

    /// The value encoded at the start of `bytes`.
    spec fn parse(bytes: Seq<u8>) -> Self::V;

    /// `buf` with the encoding of `v` written over its first `byte_size()` bytes.
    spec fn emit(v: Self::V, buf: Seq<u8>) -> Seq<u8>;

    /// The outcome of the field assertions on a decoded value.
    spec fn check(v: Self::V) -> Result<(), SaveError>;

    /// Every field encoded at the start of `bytes` is in the form that
    /// writing its value produces (a flag byte is 0 or 1).
    spec fn canonical(bytes: Seq<u8>) -> bool;

    proof fn lemma_parse_well_formed(bytes: Seq<u8>)
        requires
            bytes.len() >= Self::byte_size(),
        ensures
            Self::well_formed(Self::parse(bytes)),
    ;

    proof fn lemma_emit_frame(v: Self::V, buf: Seq<u8>)
        requires
            Self::well_formed(v),
            buf.len() >= Self::byte_size(),
        ensures
            changed_only(buf, Self::emit(v, buf), 0, Self::byte_size() as int),
    ;

    proof fn lemma_parse_local(a: Seq<u8>, b: Seq<u8>)
        requires
            a.len() >= Self::byte_size(),
            b.len() >= Self::byte_size(),
            same_range(a, b, 0, Self::byte_size() as int),
        ensures
            Self::parse(a) == Self::parse(b),
    ;

    proof fn lemma_round_trip(v: Self::V, buf: Seq<u8>)
        requires
            Self::well_formed(v),
            buf.len() >= Self::byte_size(),
        ensures
            Self::parse(Self::emit(v, buf)) == v,
    ;

    proof fn lemma_rewrite(bytes: Seq<u8>)
        requires
            bytes.len() >= Self::byte_size(),
            Self::canonical(bytes),
        ensures
            Self::emit(Self::parse(bytes), bytes) == bytes,
    ;

    fn size() -> (r: usize)
        ensures
            r == Self::byte_size(),
    ;

    fn read_at(bytes: &[u8], off: usize) -> (r: Self)
        requires
            off + Self::byte_size() <= bytes@.len(),
        ensures
            r@ == Self::parse(bytes@.skip(off as int)),
    ;

    fn write_at(&self, bytes: &mut [u8], off: usize)
        requires
            Self::well_formed(self@),
            off + Self::byte_size() <= old(bytes)@.len(),
        ensures
            final(bytes)@ == old(bytes)@.take(off as int) + Self::emit(
                self@,
                old(bytes)@.skip(off as int),
            ),
    ;

    fn validate(&self) -> (r: Result<(), SaveError>)
        ensures
            r == Self::check(self@),
    ;
}

/// The value of type `T` encoded at byte `off` of `bytes`.
pub open spec fn parse_at<T: SaveBin>(bytes: Seq<u8>, off: int) -> T::V {
    T::parse(bytes.skip(off))
}

/// `buf` with the encoding of `v` written at byte `off`.
pub open spec fn emit_at<T: SaveBin>(v: T::V, buf: Seq<u8>, off: int) -> Seq<u8> {
    buf.take(off) + T::emit(v, buf.skip(off))
}

/// `n` consecutive values of type `T` encoded from byte `off` of `bytes`.
pub open spec fn parse_seq<T: SaveBin>(bytes: Seq<u8>, off: int, n: nat) -> Seq<T::V> {
    Seq::new(n, |i: int| parse_at::<T>(bytes, off + i * T::byte_size()))
}

/// `buf` with the values of `xs` written one after the other from byte `off`.
pub open spec fn emit_seq<T: SaveBin>(xs: Seq<T::V>, buf: Seq<u8>, off: int) -> Seq<u8>
    decreases xs.len(),
{
    if xs.len() == 0 {
        buf
    } else {
        emit_at::<T>(
            xs.last(),
            emit_seq::<T>(xs.drop_last(), buf, off),
            off + (xs.len() - 1) * T::byte_size(),
        )
    }
}

/// The model values of a sequence of values.
pub open spec fn views<T: View>(s: Seq<T>) -> Seq<T::V> {
    Seq::new(s.len(), |i: int| s[i]@)
}

pub open spec fn all_well_formed<T: SaveBin>(xs: Seq<T::V>) -> bool {
    forall|i: int| 0 <= i < xs.len() ==> T::well_formed(#[trigger] xs[i])
}

/// Writing a value at `off` changes only the bytes of that value.
pub proof fn lemma_emit_at_frame<T: SaveBin>(v: T::V, buf: Seq<u8>, off: int)
    requires
        T::well_formed(v),
        0 <= off,
        off + T::byte_size() <= buf.len(),
    ensures
        changed_only(buf, emit_at::<T>(v, buf, off), off, off + T::byte_size()),
{
    T::lemma_emit_frame(v, buf.skip(off));
    let r = emit_at::<T>(v, buf, off);
    assert forall|i: int| 0 <= i < buf.len() && !(off <= i < off + T::byte_size()) implies #[trigger] r[i]
        == buf[i] by {
        if i >= off {
            assert(r[i] == T::emit(v, buf.skip(off))[i - off]);
        }
    }
}

/// Reading a value at `off` depends only on the bytes of that value.
pub proof fn lemma_parse_at_local<T: SaveBin>(a: Seq<u8>, b: Seq<u8>, off: int)
    requires
        0 <= off,
        off + T::byte_size() <= a.len(),
        off + T::byte_size() <= b.len(),
        same_range(a, b, off, off + T::byte_size()),
    ensures
        parse_at::<T>(a, off) == parse_at::<T>(b, off),
{
    let sa = a.skip(off);
    let sb = b.skip(off);
    assert forall|i: int| 0 <= i < T::byte_size() implies #[trigger] sa[i] == sb[i] by {
        assert(a[off + i] == b[off + i]);
    }
    T::lemma_parse_local(sa, sb);
}

/// A value written at `off` reads back unchanged from `off`.
pub proof fn lemma_at_round_trip<T: SaveBin>(v: T::V, buf: Seq<u8>, off: int)
    requires
        T::well_formed(v),
        0 <= off,
        off + T::byte_size() <= buf.len(),
    ensures
        parse_at::<T>(emit_at::<T>(v, buf, off), off) == v,
{
    let e = T::emit(v, buf.skip(off));
    T::lemma_emit_frame(v, buf.skip(off));
    assert(emit_at::<T>(v, buf, off).skip(off) =~= e);
    T::lemma_round_trip(v, buf.skip(off));
}

/// Writing at `o` inside the part of a buffer past a prefix is writing at
/// `prefix.len() + o` in the whole buffer.
pub proof fn lemma_emit_at_shift<T: SaveBin>(v: T::V, prefix: Seq<u8>, rest: Seq<u8>, o: int)
    requires
        T::well_formed(v),
        0 <= o,
        o + T::byte_size() <= rest.len(),
    ensures
        emit_at::<T>(v, prefix + rest, prefix.len() + o) == prefix + emit_at::<T>(v, rest, o),
{
    let whole = prefix + rest;
    assert(whole.skip(prefix.len() + o) =~= rest.skip(o));
    assert(whole.take(prefix.len() + o) =~= prefix + rest.take(o));
    assert(emit_at::<T>(v, whole, prefix.len() + o) =~= prefix + emit_at::<T>(v, rest, o));
}

/// Reading at `o` inside the part of a buffer past `off` is reading at
/// `off + o` in the whole buffer.
pub proof fn lemma_parse_at_shift<T: SaveBin>(bytes: Seq<u8>, off: int, o: int)
    requires
        0 <= off,
        0 <= o,
        off + o <= bytes.len(),
    ensures
        parse_at::<T>(bytes.skip(off), o) == parse_at::<T>(bytes, off + o),
{
    assert(bytes.skip(off).skip(o) =~= bytes.skip(off + o));
}

/// [`lemma_emit_at_shift`] for arrays.
pub proof fn lemma_emit_seq_shift<T: SaveBin>(
    xs: Seq<T::V>,
    prefix: Seq<u8>,
    rest: Seq<u8>,
    o: int,
)
    requires
        all_well_formed::<T>(xs),
        0 <= o,
        o + xs.len() * T::byte_size() <= rest.len(),
    ensures
        emit_seq::<T>(xs, prefix + rest, prefix.len() + o) == prefix + emit_seq::<T>(xs, rest, o),
    decreases xs.len(),
{
    if xs.len() > 0 {
        let n = xs.len() - 1;
        let s = T::byte_size() as int;
        lemma_elem_in_range(n, xs.len() as int, s);
        lemma_emit_seq_shift::<T>(xs.drop_last(), prefix, rest, o);
        lemma_emit_seq_frame::<T>(xs.drop_last(), rest, o);
        lemma_emit_at_shift::<T>(xs.last(), prefix, emit_seq::<T>(xs.drop_last(), rest, o), o + n * s);
        assert(prefix.len() + o + n * s == prefix.len() + (o + n * s));
    }
}

/// [`lemma_parse_at_shift`] for arrays.
pub proof fn lemma_parse_seq_shift<T: SaveBin>(bytes: Seq<u8>, off: int, o: int, n: nat)
    requires
        0 <= off,
        0 <= o,
        off + o + n * T::byte_size() <= bytes.len(),
    ensures
        parse_seq::<T>(bytes.skip(off), o, n) == parse_seq::<T>(bytes, off + o, n),
{
    let s = T::byte_size() as int;
    assert forall|i: int| 0 <= i < n implies #[trigger] parse_seq::<T>(bytes.skip(off), o, n)[i]
        == parse_seq::<T>(bytes, off + o, n)[i] by {
        lemma_elem_in_range(i, n as int, s);
        lemma_parse_at_shift::<T>(bytes, off, o + i * s);
        assert(off + (o + i * s) == (off + o) + i * s);
    }
    assert(parse_seq::<T>(bytes.skip(off), o, n) =~= parse_seq::<T>(bytes, off + o, n));
}

/// Every element of the array of `n` values from `off` is canonical.
pub open spec fn canonical_seq<T: SaveBin>(bytes: Seq<u8>, off: int, n: nat) -> bool {
    forall|i: int| 0 <= i < n ==> T::canonical(#[trigger] bytes.skip(off + i * T::byte_size()))
}

/// Writing back the value read at `off` leaves a canonical buffer as it was.
pub proof fn lemma_at_rewrite<T: SaveBin>(bytes: Seq<u8>, off: int)
    requires
        0 <= off,
        off + T::byte_size() <= bytes.len(),
        T::canonical(bytes.skip(off)),
    ensures
        emit_at::<T>(parse_at::<T>(bytes, off), bytes, off) == bytes,
{
    T::lemma_rewrite(bytes.skip(off));
    assert(bytes.take(off) + bytes.skip(off) =~= bytes);
}

/// Writing back the array read from `off` leaves a canonical buffer as it
/// was.
pub proof fn lemma_seq_rewrite<T: SaveBin>(bytes: Seq<u8>, off: int, n: nat)
    requires
        0 <= off,
        off + n * T::byte_size() <= bytes.len(),
        canonical_seq::<T>(bytes, off, n),
    ensures
        emit_seq::<T>(parse_seq::<T>(bytes, off, n), bytes, off) == bytes,
    decreases n,
{
    if n > 0 {
        let s = T::byte_size() as int;
        let xs = parse_seq::<T>(bytes, off, n);
        lemma_elem_in_range(n - 1, n as int, s);
        assert(xs.drop_last() =~= parse_seq::<T>(bytes, off, (n - 1) as nat));
        assert(canonical_seq::<T>(bytes, off, (n - 1) as nat)) by {
            assert forall|i: int| 0 <= i < n - 1 implies T::canonical(
                #[trigger] bytes.skip(off + i * s),
            ) by {
                assert(0 <= i < n);
            }
        }
        lemma_seq_rewrite::<T>(bytes, off, (n - 1) as nat);
        assert(T::canonical(bytes.skip(off + (n - 1) * s)));
        lemma_at_rewrite::<T>(bytes, off + (n - 1) * s);
    }
}

/// Writing `xs` from `off` changes only the bytes of the array.
pub proof fn lemma_emit_seq_frame<T: SaveBin>(xs: Seq<T::V>, buf: Seq<u8>, off: int)
    requires
        all_well_formed::<T>(xs),
        0 <= off,
        off + xs.len() * T::byte_size() <= buf.len(),
    ensures
        changed_only(buf, emit_seq::<T>(xs, buf, off), off, off + xs.len() * T::byte_size()),
    decreases xs.len(),
{
    if xs.len() > 0 {
        let n = xs.len() - 1;
        let inner = emit_seq::<T>(xs.drop_last(), buf, off);
        assert(n * T::byte_size() + T::byte_size() == xs.len() * T::byte_size())
            by (nonlinear_arith)
            requires
                n == xs.len() - 1,
        ;
        assert(0 <= n * T::byte_size()) by (nonlinear_arith)
            requires
                n >= 0,
        ;
        lemma_emit_seq_frame::<T>(xs.drop_last(), buf, off);
        lemma_emit_at_frame::<T>(xs.last(), inner, off + n * T::byte_size());
    }
}

/// Element `i` of an array lies wholly inside the array.
pub proof fn lemma_elem_in_range(i: int, n: int, size: int)
    requires
        0 <= i < n,
        0 <= size,
    ensures
        0 <= i * size,
        i * size + size <= n * size,
{
    assert(0 <= i * size) by (nonlinear_arith)
        requires
            0 <= i,
            0 <= size,
    ;
    assert(i * size + size <= n * size) by (nonlinear_arith)
        requires
            i < n,
            0 <= size,
    ;
}

/// The array written from `off` reads back element by element.
pub proof fn lemma_seq_round_trip<T: SaveBin>(xs: Seq<T::V>, buf: Seq<u8>, off: int)
    requires
        all_well_formed::<T>(xs),
        0 <= off,
        off + xs.len() * T::byte_size() <= buf.len(),
    ensures
        parse_seq::<T>(emit_seq::<T>(xs, buf, off), off, xs.len()) == xs,
    decreases xs.len(),
{
    if xs.len() > 0 {
        let n = xs.len() - 1;
        let s = T::byte_size() as int;
        let ys = xs.drop_last();
        let inner = emit_seq::<T>(ys, buf, off);
        let outer = emit_seq::<T>(xs, buf, off);
        lemma_elem_in_range(n, xs.len() as int, s);
        lemma_seq_round_trip::<T>(ys, buf, off);
        lemma_emit_seq_frame::<T>(ys, buf, off);
        lemma_emit_at_frame::<T>(xs.last(), inner, off + n * s);
        lemma_at_round_trip::<T>(xs.last(), inner, off + n * s);
        assert forall|i: int| 0 <= i < xs.len() implies #[trigger] parse_seq::<T>(
            outer,
            off,
            xs.len(),
        )[i] == xs[i] by {
            if i < n {
                lemma_elem_in_range(i, n, s);
                assert(parse_seq::<T>(inner, off, ys.len())[i] == ys[i]);
                lemma_parse_at_local::<T>(outer, inner, off + i * s);
            }
        }
        assert(parse_seq::<T>(outer, off, xs.len()) =~= xs);
    }
}

/// Reading an array depends only on the bytes of the array.
pub proof fn lemma_parse_seq_local<T: SaveBin>(a: Seq<u8>, b: Seq<u8>, off: int, n: nat)
    requires
        0 <= off,
        off + n * T::byte_size() <= a.len(),
        off + n * T::byte_size() <= b.len(),
        same_range(a, b, off, off + n * T::byte_size()),
    ensures
        parse_seq::<T>(a, off, n) == parse_seq::<T>(b, off, n),
{
    let s = T::byte_size() as int;
    assert forall|i: int| 0 <= i < n implies #[trigger] parse_seq::<T>(a, off, n)[i] == parse_seq::<
        T,
    >(b, off, n)[i] by {
        lemma_elem_in_range(i, n as int, s);
        lemma_parse_at_local::<T>(a, b, off + i * s);
    }
    assert(parse_seq::<T>(a, off, n) =~= parse_seq::<T>(b, off, n));
}

/// Every element of a decoded array has the shape its type can encode.
pub proof fn lemma_parse_seq_well_formed<T: SaveBin>(bytes: Seq<u8>, off: int, n: nat)
    requires
        0 <= off,
        off + n * T::byte_size() <= bytes.len(),
    ensures
        all_well_formed::<T>(parse_seq::<T>(bytes, off, n)),
{
    let s = T::byte_size() as int;
    assert forall|i: int| 0 <= i < n implies T::well_formed(
        #[trigger] parse_seq::<T>(bytes, off, n)[i],
    ) by {
        lemma_elem_in_range(i, n as int, s);
        T::lemma_parse_well_formed(bytes.skip(off + i * s));
    }
}

/// Reads `n` consecutive values of type `T` from byte `off`.
pub fn read_seq<T: SaveBin>(bytes: &[u8], off: usize, n: usize) -> (r: Vec<T>)
    requires
        off + n * T::byte_size() <= bytes@.len(),
    ensures
        views(r@) == parse_seq::<T>(bytes@, off as int, n as nat),
{
    let size = T::size();
    let blen = bytes.len();
    let mut out: Vec<T> = Vec::new();
    let mut i: usize = 0;
    while i < n
        invariant
            i <= n,
            blen == bytes@.len(),
            size == T::byte_size(),
            off + n * T::byte_size() <= bytes@.len(),
            out@.len() == i,
            forall|k: int| 0 <= k < i ==> #[trigger] out@[k]@ == parse_at::<T>(
                bytes@,
                off + k * T::byte_size(),
            ),
        decreases n - i,
    {
        proof {
            lemma_elem_in_range(i as int, n as int, size as int);
        }
        let pos = off + i * size;
        let v = T::read_at(bytes, pos);
        out.push(v);
        i = i + 1;
    }
    assert(views(out@) =~= parse_seq::<T>(bytes@, off as int, n as nat));
    out
}

/// Writes the values of `xs` one after the other from byte `off`.
pub fn write_seq<T: SaveBin>(xs: &Vec<T>, bytes: &mut [u8], off: usize)
    requires
        all_well_formed::<T>(views(xs@)),
        off + xs@.len() * T::byte_size() <= old(bytes)@.len(),
    ensures
        final(bytes)@ == emit_seq::<T>(views(xs@), old(bytes)@, off as int),
{
    let size = T::size();
    let n = xs.len();
    let blen = bytes.len();
    let mut i: usize = 0;
    while i < n
        invariant
            i <= n,
            blen == old(bytes)@.len(),
            n == xs@.len(),
            size == T::byte_size(),
            all_well_formed::<T>(views(xs@)),
            off + n * T::byte_size() <= old(bytes)@.len(),
            bytes@ == emit_seq::<T>(views(xs@).take(i as int), old(bytes)@, off as int),
        decreases n - i,
    {
        proof {
            lemma_elem_in_range(i as int, n as int, size as int);
            assert(views(xs@)[i as int] == xs@[i as int]@);
            lemma_emit_seq_frame::<T>(views(xs@).take(i as int), old(bytes)@, off as int);
        }
        let pos = off + i * size;
        xs[i].write_at(bytes, pos);
        proof {
            let t = views(xs@).take(i + 1);
            assert(t.drop_last() =~= views(xs@).take(i as int));
            assert(t.last() == xs@[i as int]@);
        }
        i = i + 1;
    }
    assert(views(xs@).take(n as int) =~= views(xs@));
}

/// Decodes a value of type `T` from the start of `bytes` into `out`.
///
/// A buffer shorter than the type's size gives `UnexpectedEof`; a value that
/// fails one of its field assertions gives that assertion's error, and `out`
/// is then left as it was.
pub fn decode_into<T: SaveBin>(bytes: &[u8], out: &mut T) -> (r: Result<(), SaveError>)
    ensures
        r == (if bytes@.len() < T::byte_size() {
            Err(SaveError::UnexpectedEof)
        } else {
            T::check(T::parse(bytes@))
        }),
        r is Ok ==> final(out)@ == T::parse(bytes@),
        r is Err ==> *final(out) == *old(out),
{
    if bytes.len() < T::size() {
        return Err(SaveError::UnexpectedEof);
    }
    let v = T::read_at(bytes, 0);
    proof {
        assert(bytes@.skip(0) =~= bytes@);
    }
    let res = v.validate();
    if res.is_ok() {
        *out = v;
    }
    res
}

/// Decodes a value of type `T` from the start of `bytes`, with the errors of
/// [`decode_into`].
pub fn decode<T: SaveBin>(bytes: &[u8]) -> (r: Result<T, SaveError>)
    ensures
        match r {
            Ok(v) => bytes@.len() >= T::byte_size() && T::check(T::parse(bytes@)) is Ok && v@
                == T::parse(bytes@),
            Err(e) => Err::<(), SaveError>(e) == (if bytes@.len() < T::byte_size() {
                Err(SaveError::UnexpectedEof)
            } else {
                T::check(T::parse(bytes@))
            }),
        },
{
    if bytes.len() < T::size() {
        return Err(SaveError::UnexpectedEof);
    }
    let v = T::read_at(bytes, 0);
    proof {
        assert(bytes@.skip(0) =~= bytes@);
    }
    match v.validate() {
        Ok(()) => Ok(v),
        Err(e) => Err(e),
    }
}

/// Encodes `value` over the start of `bytes`.
///
/// A buffer shorter than the type's size gives `UnexpectedEof` and is left
/// as it was.
pub fn encode<T: SaveBin>(value: &T, bytes: &mut [u8]) -> (r: Result<(), SaveError>)
    requires
        T::well_formed(value@),
    ensures
        r == (if old(bytes)@.len() < T::byte_size() {
            Err(SaveError::UnexpectedEof)
        } else {
            Ok(())
        }),
        r is Ok ==> final(bytes)@ == T::emit(value@, old(bytes)@),
        r is Err ==> final(bytes)@ == old(bytes)@,
{
    if bytes.len() < T::size() {
        return Err(SaveError::UnexpectedEof);
    }
    value.write_at(bytes, 0);
    proof {
        let b = old(bytes)@;
        assert(b.take(0) + T::emit(value@, b.skip(0)) =~= T::emit(value@, b)) by {
            assert(b.skip(0) =~= b);
        }
    }
    Ok(())
}

/// Encoding a decoded value over the buffer it was decoded from leaves the
/// buffer as it was, when its fields are in canonical form.
pub proof fn lemma_encode_decoded<T: SaveBin>(bytes: Seq<u8>)
    requires
        bytes.len() >= T::byte_size(),
        T::canonical(bytes),
    ensures
        T::well_formed(T::parse(bytes)),
        T::emit(T::parse(bytes), bytes) == bytes,
{
    T::lemma_parse_well_formed(bytes);
    T::lemma_rewrite(bytes);
}

/// Encoding a value and decoding the bytes gives the value back, and the
/// decoded value passes the same assertions.
pub proof fn lemma_decode_encode<T: SaveBin>(v: T::V, buf: Seq<u8>)
    requires
        T::well_formed(v),
        buf.len() >= T::byte_size(),
    ensures
        T::emit(v, buf).len() == buf.len(),
        T::parse(T::emit(v, buf)) == v,
        T::check(T::parse(T::emit(v, buf))) == T::check(v),
{
    T::lemma_emit_frame(v, buf);
    T::lemma_round_trip(v, buf);
}

} // verus!
