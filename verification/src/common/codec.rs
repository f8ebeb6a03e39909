//! Big-endian integer encodings and byte-range updates, the vocabulary in
//! which the page formats and the value codec state their layouts.

use bytes::{Buf, BufMut};
use vstd::prelude::*;

verus! {

/// The unsigned number that `b` spells in big-endian order.
pub open spec fn be_value(b: Seq<u8>) -> nat
    decreases b.len(),
{
    if b.len() == 0 {
        0
    } else {
        be_value(b.drop_last()) * 256 + b.last() as nat
    }
}

/// The `n` low-order bytes of `v`, most significant first.
pub open spec fn be_bytes(v: nat, n: nat) -> Seq<u8>
    decreases n,
{
    if n == 0 {
        Seq::empty()
    } else {
        be_bytes(v / 256, (n - 1) as nat).push((v % 256) as u8)
    }
}

/// Two to the power `8 * n`: the number of values that `n` bytes can spell.
pub open spec fn byte_range(n: nat) -> nat
    decreases n,
{
    if n == 0 {
        1
    } else {
        256 * byte_range((n - 1) as nat)
    }
}

/// The unsigned number that shares its `n`-byte two's complement bit pattern with `v`.
pub open spec fn to_unsigned(v: int, n: nat) -> nat {
    if v < 0 {
        (v + byte_range(n)) as nat
    } else {
        v as nat
    }
}

/// The signed reading of the `n`-byte two's complement pattern `u`.
pub open spec fn to_signed(u: nat, n: nat) -> int {
    if 2 * u >= byte_range(n) {
        u - byte_range(n)
    } else {
        u as int
    }
}

/// `data` with the bytes from `offset` on replaced by `bytes`.
pub open spec fn splice(data: Seq<u8>, offset: int, bytes: Seq<u8>) -> Seq<u8> {
    Seq::new(
        data.len(),
        |i: int|
            if offset <= i < offset + bytes.len() {
                bytes[i - offset]
            } else {
                data[i]
            },
    )
}

/// The unsigned big-endian number in the `n` bytes of `data` at `offset`.
pub open spec fn unsigned_at(data: Seq<u8>, offset: int, n: int) -> nat {
    be_value(data.subrange(offset, offset + n))
}

/// The two's complement big-endian number in the `n` bytes of `data` at `offset`.
pub open spec fn signed_at(data: Seq<u8>, offset: int, n: int) -> int {
    to_signed(unsigned_at(data, offset, n), n as nat)
}

/// The numbers of values that one to eight bytes can spell.
pub proof fn lemma_byte_range_values()
    ensures
        byte_range(0) == 1,
        byte_range(1) == 0x100,
        byte_range(2) == 0x1_0000,
        byte_range(3) == 0x100_0000,
        byte_range(4) == 0x1_0000_0000,
        byte_range(5) == 0x100_0000_0000,
        byte_range(6) == 0x1_0000_0000_0000,
        byte_range(7) == 0x100_0000_0000_0000,
        byte_range(8) == 0x1_0000_0000_0000_0000,
{
    reveal_with_fuel(byte_range, 10);
}

/// A number is spelt in as many bytes as were asked for.
pub proof fn lemma_be_bytes_len(v: nat, n: nat)
    ensures
        be_bytes(v, n).len() == n,
    decreases n,
{
    if n > 0 {
        lemma_be_bytes_len(v / 256, (n - 1) as nat);
    }
}

/// Every number below `256^n` is recovered from its `n` big-endian bytes.
pub proof fn lemma_be_value_of_bytes(v: nat, n: nat)
    requires
        v < byte_range(n),
    ensures
        be_bytes(v, n).len() == n,
        be_value(be_bytes(v, n)) == v,
    decreases n,
{
    if n > 0 {
        let rest = be_bytes(v / 256, (n - 1) as nat);
        lemma_be_value_of_bytes(v / 256, (n - 1) as nat);
        assert(be_bytes(v, n).drop_last() =~= rest);
    }
}

/// The bytes of a sequence are recovered from the number they spell.
pub proof fn lemma_be_bytes_of_value(b: Seq<u8>)
    ensures
        be_value(b) < byte_range(b.len()),
        be_bytes(be_value(b), b.len()) == b,
    decreases b.len(),
{
    if b.len() > 0 {
        lemma_be_bytes_of_value(b.drop_last());
        let v = be_value(b);
        assert(v / 256 == be_value(b.drop_last()));
        assert(v % 256 == b.last() as nat);
        assert(be_bytes(v, b.len()) =~= b);
    } else {
        assert(be_bytes(0, 0) =~= b);
    }
}

/// The signed and unsigned readings of a bit pattern determine each other.
pub proof fn lemma_signed_round_trip(v: int, n: nat)
    requires
        n > 0,
        -(byte_range(n) as int) <= 2 * v < byte_range(n),
    ensures
        to_unsigned(v, n) < byte_range(n),
        to_signed(to_unsigned(v, n), n) == v,
{
}

/// The spliced range holds the new bytes.
pub proof fn lemma_splice_sets(data: Seq<u8>, offset: int, bytes: Seq<u8>)
    requires
        0 <= offset,
        offset + bytes.len() <= data.len(),
    ensures
        splice(data, offset, bytes).len() == data.len(),
        splice(data, offset, bytes).subrange(offset, offset + bytes.len()) == bytes,
{
    assert(splice(data, offset, bytes).subrange(offset, offset + bytes.len()) =~= bytes);
}

/// Sequences that agree on a field hold the same number there.
pub proof fn lemma_same_field(a: Seq<u8>, b: Seq<u8>, at: int, n: int)
    requires
        0 <= at,
        0 <= n,
        at + n <= a.len(),
        at + n <= b.len(),
        forall|k: int| at <= k < at + n ==> a[k] == b[k],
    ensures
        a.subrange(at, at + n) == b.subrange(at, at + n),
        unsigned_at(a, at, n) == unsigned_at(b, at, n),
        signed_at(a, at, n) == signed_at(b, at, n),
{
    assert(a.subrange(at, at + n) =~= b.subrange(at, at + n));
}

/// An unsigned number written into a field is the number read from it.
pub proof fn lemma_unsigned_written(data: Seq<u8>, at: int, v: nat, n: nat)
    requires
        0 <= at,
        at + n <= data.len(),
        v < byte_range(n),
    ensures
        unsigned_at(splice(data, at, be_bytes(v, n)), at, n as int) == v,
{
    lemma_be_value_of_bytes(v, n);
    lemma_splice_sets(data, at, be_bytes(v, n));
}

/// A signed number written into a field is the number read from it.
pub proof fn lemma_signed_written(data: Seq<u8>, at: int, v: int, n: nat)
    requires
        0 <= at,
        at + n <= data.len(),
        n > 0,
        -(byte_range(n) as int) <= 2 * v < byte_range(n),
    ensures
        signed_at(splice(data, at, be_bytes(to_unsigned(v, n), n)), at, n as int) == v,
{
    lemma_signed_round_trip(v, n);
    lemma_unsigned_written(data, at, to_unsigned(v, n), n);
}

/// What a field holds lies in the range of its width.
pub proof fn lemma_field_range(data: Seq<u8>, at: int, n: nat)
    requires
        0 <= at,
        at + n <= data.len(),
        n > 0,
    ensures
        unsigned_at(data, at, n as int) < byte_range(n),
        -(byte_range(n) as int) <= 2 * signed_at(data, at, n as int) < byte_range(n),
{
    lemma_be_bytes_of_value(data.subrange(at, at + n));
}

/// A sequence of zero bytes spells zero.
pub proof fn lemma_be_value_zeros(b: Seq<u8>)
    requires
        forall|i: int| 0 <= i < b.len() ==> b[i] == 0,
    ensures
        be_value(b) == 0,
    decreases b.len(),
{
    if b.len() > 0 {
        lemma_be_value_zeros(b.drop_last());
    }
}

/// `bytes::Buf::get_i8` on the slice that starts at `offset`: the byte there,
/// read as a two's complement number.
#[verifier::external_body]
pub(crate) fn get_i8_at(data: &[u8], offset: usize) -> (r: i8)
    requires
        offset + 1 <= data@.len(),
    ensures
        r as int == signed_at(data@, offset as int, 1),
{
    (&data[offset..]).get_i8()
}

/// `bytes::Buf::get_i16` on the slice that starts at `offset`: the two bytes
/// there, read as a big-endian two's complement number.
#[verifier::external_body]
pub(crate) fn get_i16_at(data: &[u8], offset: usize) -> (r: i16)
    requires
        offset + 2 <= data@.len(),
    ensures
        r as int == signed_at(data@, offset as int, 2),
{
    (&data[offset..]).get_i16()
}

/// `bytes::Buf::get_u32` on the slice that starts at `offset`: the four bytes
/// there, read as a big-endian unsigned number.
#[verifier::external_body]
pub(crate) fn get_u32_at(data: &[u8], offset: usize) -> (r: u32)
    requires
        offset + 4 <= data@.len(),
    ensures
        r as nat == unsigned_at(data@, offset as int, 4),
{
    (&data[offset..]).get_u32()
}

/// `bytes::Buf::get_i32` on the slice that starts at `offset`: the four bytes
/// there, read as a big-endian two's complement number.
#[verifier::external_body]
pub(crate) fn get_i32_at(data: &[u8], offset: usize) -> (r: i32)
    requires
        offset + 4 <= data@.len(),
    ensures
        r as int == signed_at(data@, offset as int, 4),
{
    (&data[offset..]).get_i32()
}

/// `bytes::Buf::get_i64` on the slice that starts at `offset`: the eight bytes
/// there, read as a big-endian two's complement number.
#[verifier::external_body]
pub(crate) fn get_i64_at(data: &[u8], offset: usize) -> (r: i64)
    requires
        offset + 8 <= data@.len(),
    ensures
        r as int == signed_at(data@, offset as int, 8),
{
    (&data[offset..]).get_i64()
}

/// `bytes::Buf::get_u64` on the slice that starts at `offset`: the eight bytes
/// there, read as a big-endian unsigned number.
#[verifier::external_body]
pub(crate) fn get_u64_at(data: &[u8], offset: usize) -> (r: u64)
    requires
        offset + 8 <= data@.len(),
    ensures
        r as nat == unsigned_at(data@, offset as int, 8),
{
    (&data[offset..]).get_u64()
}

/// `bytes::BufMut::put_slice` on the mutable slice that starts at `offset`:
/// copies `src` over the bytes there and touches no other byte.
#[verifier::external_body]
pub(crate) fn put_slice_at(data: &mut [u8], offset: usize, src: &[u8])
    requires
        offset + src@.len() <= old(data)@.len(),
    ensures
        final(data)@ == splice(old(data)@, offset as int, src@),
{
    (&mut data[offset..]).put_slice(src)
}

/// `bytes::BufMut::put_i8` on the mutable slice that starts at `offset`: stores
/// the two's complement byte of `v` there.
#[verifier::external_body]
pub(crate) fn put_i8_at(data: &mut [u8], offset: usize, v: i8)
    requires
        offset + 1 <= old(data)@.len(),
    ensures
        final(data)@ == splice(old(data)@, offset as int, be_bytes(to_unsigned(v as int, 1), 1)),
{
    (&mut data[offset..]).put_i8(v)
}

/// `bytes::BufMut::put_i16` on the mutable slice that starts at `offset`: stores
/// `v` as two big-endian two's complement bytes.
#[verifier::external_body]
pub(crate) fn put_i16_at(data: &mut [u8], offset: usize, v: i16)
    requires
        offset + 2 <= old(data)@.len(),
    ensures
        final(data)@ == splice(old(data)@, offset as int, be_bytes(to_unsigned(v as int, 2), 2)),
{
    (&mut data[offset..]).put_i16(v)
}

/// `bytes::BufMut::put_u32` on the mutable slice that starts at `offset`: stores
/// `v` as four big-endian bytes.
#[verifier::external_body]
pub(crate) fn put_u32_at(data: &mut [u8], offset: usize, v: u32)
    requires
        offset + 4 <= old(data)@.len(),
    ensures
        final(data)@ == splice(old(data)@, offset as int, be_bytes(v as nat, 4)),
{
    (&mut data[offset..]).put_u32(v)
}

/// `bytes::BufMut::put_i32` on the mutable slice that starts at `offset`: stores
/// `v` as four big-endian two's complement bytes.
#[verifier::external_body]
pub(crate) fn put_i32_at(data: &mut [u8], offset: usize, v: i32)
    requires
        offset + 4 <= old(data)@.len(),
    ensures
        final(data)@ == splice(old(data)@, offset as int, be_bytes(to_unsigned(v as int, 4), 4)),
{
    (&mut data[offset..]).put_i32(v)
}

/// `bytes::BufMut::put_i64` on the mutable slice that starts at `offset`: stores
/// `v` as eight big-endian two's complement bytes.
#[verifier::external_body]
pub(crate) fn put_i64_at(data: &mut [u8], offset: usize, v: i64)
    requires
        offset + 8 <= old(data)@.len(),
    ensures
        final(data)@ == splice(old(data)@, offset as int, be_bytes(to_unsigned(v as int, 8), 8)),
{
    (&mut data[offset..]).put_i64(v)
}

/// `bytes::BufMut::put_u64` on the mutable slice that starts at `offset`: stores
/// `v` as eight big-endian bytes.
#[verifier::external_body]
pub(crate) fn put_u64_at(data: &mut [u8], offset: usize, v: u64)
    requires
        offset + 8 <= old(data)@.len(),
    ensures
        final(data)@ == splice(old(data)@, offset as int, be_bytes(v as nat, 8)),
{
    (&mut data[offset..]).put_u64(v)
}

} // verus!
