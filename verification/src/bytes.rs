//! Byte buffers of fixed layout: little-endian fields, appended one after
//! another or written over a zeroed buffer at fixed offsets.

use vstd::bytes::{
    lemma_auto_spec_u128_to_from_le_bytes, lemma_auto_spec_u16_to_from_le_bytes,
    lemma_auto_spec_u32_to_from_le_bytes, lemma_auto_spec_u64_to_from_le_bytes,
    spec_u128_to_le_bytes, spec_u16_to_le_bytes, spec_u32_to_le_bytes, spec_u64_to_le_bytes,
    u128_to_le_bytes, u16_to_le_bytes, u32_to_le_bytes, u64_to_le_bytes,
};
use vstd::prelude::*;

verus! {

/// `n` zero bytes.
pub open spec fn zeroed(n: nat) -> Seq<u8> {
    Seq::new(n, |i: int| 0u8)
}

/// `buf` with `bytes` written over it from offset `at` on.
pub open spec fn overwritten(buf: Seq<u8>, at: int, bytes: Seq<u8>) -> Seq<u8> {
    Seq::new(
        buf.len(),
        |i: int|
            if at <= i < at + bytes.len() {
                bytes[i - at]
            } else {
                buf[i]
            },
    )
}

/// Little-endian bytes of a signed 16-bit number, in two's complement.
pub open spec fn le_i16(x: i16) -> Seq<u8> {
    spec_u16_to_le_bytes(x as u16)
}

/// Little-endian bytes of a signed 32-bit number, in two's complement.
pub open spec fn le_i32(x: i32) -> Seq<u8> {
    spec_u32_to_le_bytes(x as u32)
}

/// Little-endian bytes of a signed 64-bit number, in two's complement.
pub open spec fn le_i64(x: i64) -> Seq<u8> {
    spec_u64_to_le_bytes(x as u64)
}

/// Little-endian bytes of a signed 128-bit number, in two's complement.
pub open spec fn le_i128(x: i128) -> Seq<u8> {
    spec_u128_to_le_bytes(x as u128)
}

/// Lengths of the little-endian encodings.
pub proof fn lemma_le_lengths()
    ensures
        forall|x: u16| #[trigger] spec_u16_to_le_bytes(x).len() == 2,
        forall|x: u32| #[trigger] spec_u32_to_le_bytes(x).len() == 4,
        forall|x: u64| #[trigger] spec_u64_to_le_bytes(x).len() == 8,
        forall|x: u128| #[trigger] spec_u128_to_le_bytes(x).len() == 16,
{
    lemma_auto_spec_u16_to_from_le_bytes();
    lemma_auto_spec_u32_to_from_le_bytes();
    lemma_auto_spec_u64_to_from_le_bytes();
    lemma_auto_spec_u128_to_from_le_bytes();
}

/// A buffer of `n` zero bytes.
pub fn zeros(n: usize) -> (buf: Vec<u8>)
    ensures
        buf@ == zeroed(n as nat),
{
    let mut buf: Vec<u8> = Vec::new();
    let mut i: usize = 0;
    while i < n
        invariant
            i <= n,
            buf@ == zeroed(i as nat),
        decreases n - i,
    {
        buf.push(0u8);
        i = i + 1;
        assert(buf@ =~= zeroed(i as nat));
    }
    buf
}

/// Appends `bytes` to `buf`.
pub fn append(buf: &mut Vec<u8>, bytes: &Vec<u8>)
    ensures
        final(buf)@ == old(buf)@ + bytes@,
{
    let mut i: usize = 0;
    while i < bytes.len()
        invariant
            i <= bytes.len(),
            buf@ == old(buf)@ + bytes@.subrange(0, i as int),
        decreases bytes.len() - i,
    {
        buf.push(bytes[i]);
        i = i + 1;
        assert(buf@ =~= old(buf)@ + bytes@.subrange(0, i as int));
    }
    assert(bytes@.subrange(0, i as int) =~= bytes@);
}

/// Writes `bytes` over `buf` from offset `at` on.
pub fn write_at(buf: &mut Vec<u8>, at: usize, bytes: &Vec<u8>)
    requires
        at + bytes.len() <= old(buf).len(),
    ensures
        final(buf)@ == overwritten(old(buf)@, at as int, bytes@),
{
    let mut i: usize = 0;
    while i < bytes.len()
        invariant
            i <= bytes.len(),
            at + bytes.len() <= buf.len(),
            buf@ == overwritten(old(buf)@, at as int, bytes@.subrange(0, i as int)),
        decreases bytes.len() - i,
    {
        buf.set(at + i, bytes[i]);
        i = i + 1;
        assert(buf@ =~= overwritten(old(buf)@, at as int, bytes@.subrange(0, i as int)));
    }
    assert(bytes@.subrange(0, i as int) =~= bytes@);
}

/// Writes one byte over `buf` at offset `at`.
pub fn write_byte(buf: &mut Vec<u8>, at: usize, byte: u8)
    requires
        at < old(buf).len(),
    ensures
        final(buf)@ == overwritten(old(buf)@, at as int, seq![byte]),
{
    buf.set(at, byte);
    assert(buf@ =~= overwritten(old(buf)@, at as int, seq![byte]));
}

/// Little-endian bytes of a signed 16-bit number.
pub fn i16_bytes(x: i16) -> (bytes: Vec<u8>)
    ensures
        bytes@ == le_i16(x),
        bytes@.len() == 2,
{
    u16_to_le_bytes(x as u16)
}

/// Little-endian bytes of a signed 32-bit number.
pub fn i32_bytes(x: i32) -> (bytes: Vec<u8>)
    ensures
        bytes@ == le_i32(x),
        bytes@.len() == 4,
{
    u32_to_le_bytes(x as u32)
}

/// Little-endian bytes of a signed 64-bit number.
pub fn i64_bytes(x: i64) -> (bytes: Vec<u8>)
    ensures
        bytes@ == le_i64(x),
        bytes@.len() == 8,
{
    u64_to_le_bytes(x as u64)
}

/// Little-endian bytes of a signed 128-bit number.
pub fn i128_bytes(x: i128) -> (bytes: Vec<u8>)
    ensures
        bytes@ == le_i128(x),
        bytes@.len() == 16,
{
    u128_to_le_bytes(x as u128)
}

} // verus!
