//! Big-endian integers in byte strings.

use byteorder::{BigEndian, ByteOrder, WriteBytesExt};

use vstd::prelude::*;

verus! {

/// The number that bytes stand for, most significant byte first.
pub open spec fn value(bytes: Seq<u8>) -> nat
    decreases bytes.len(),
{
    if bytes.len() == 0 {
        0
    } else {
        value(bytes.drop_last()) * 256 + bytes.last() as nat
    }
}

/// The lowest `width` bytes of a number, most significant byte first.
pub open spec fn digits(n: nat, width: nat) -> Seq<u8>
    decreases width,
{
    if width == 0 {
        Seq::empty()
    } else {
        digits(n / 256, (width - 1) as nat).push((n % 256) as u8)
    }
}

/// How many numbers `width` bytes can stand for.
pub open spec fn span(width: nat) -> nat
    decreases width,
{
    if width == 0 {
        1
    } else {
        span((width - 1) as nat) * 256
    }
}

/// The bytes of a number that fits stand for that number.
pub proof fn lemma_roundtrip(n: nat, width: nat)
    requires
        n < span(width),
    ensures
        digits(n, width).len() == width,
        value(digits(n, width)) == n,
    decreases width,
{
    if width > 0 {
        let before = (width - 1) as nat;
        assert(n / 256 < span(before)) by (nonlinear_arith)
            requires
                n < span(before) * 256,
        ;
        lemma_roundtrip(n / 256, before);
        assert(digits(n, width).drop_last() =~= digits(n / 256, before));
    }
}

/// So many bytes stand for no larger number.
pub proof fn lemma_value_bound(bytes: Seq<u8>)
    ensures
        value(bytes) < span(bytes.len()),
    decreases bytes.len(),
{
    if bytes.len() > 0 {
        lemma_value_bound(bytes.drop_last());
    }
}

pub proof fn lemma_spans()
    ensures
        span(2) == 0x1_0000,
        span(4) == 0x1_0000_0000,
        span(8) == 0x1_0000_0000_0000_0000,
{
    reveal_with_fuel(span, 9);
}

/// Calls `byteorder::ByteOrder::read_u16` for `BigEndian`: the number that the
/// first two bytes stand for.
#[verifier::external_body]
pub(crate) fn read_u16(bytes: &[u8]) -> (r: u16)
    requires
        bytes@.len() >= 2,
    ensures
        r == value(bytes@.take(2)),
{
    BigEndian::read_u16(bytes)
}

/// Calls `byteorder::ByteOrder::read_u32` for `BigEndian`: the number that the
/// first four bytes stand for.
#[verifier::external_body]
pub(crate) fn read_u32(bytes: &[u8]) -> (r: u32)
    requires
        bytes@.len() >= 4,
    ensures
        r == value(bytes@.take(4)),
{
    BigEndian::read_u32(bytes)
}

/// Calls `byteorder::ByteOrder::read_u64` for `BigEndian`: the number that the
/// first eight bytes stand for.
#[verifier::external_body]
pub(crate) fn read_u64(bytes: &[u8]) -> (r: u64)
    requires
        bytes@.len() >= 8,
    ensures
        r == value(bytes@.take(8)),
{
    BigEndian::read_u64(bytes)
}

/// Calls `byteorder::WriteBytesExt::write_u16` with `BigEndian` on a `Vec<u8>`,
/// which takes every write: the two bytes of the number are appended.
#[verifier::external_body]
pub(crate) fn write_u16(buffer: &mut Vec<u8>, n: u16)
    ensures
        final(buffer)@ == old(buffer)@ + digits(n as nat, 2),
{
    buffer.write_u16::<BigEndian>(n).unwrap();
}

/// Calls `byteorder::WriteBytesExt::write_u32` with `BigEndian` on a `Vec<u8>`,
/// which takes every write: the four bytes of the number are appended.
#[verifier::external_body]
pub(crate) fn write_u32(buffer: &mut Vec<u8>, n: u32)
    ensures
        final(buffer)@ == old(buffer)@ + digits(n as nat, 4),
{
    buffer.write_u32::<BigEndian>(n).unwrap();
}

/// Calls `byteorder::WriteBytesExt::write_u64` with `BigEndian` on a `Vec<u8>`,
/// which takes every write: the eight bytes of the number are appended.
#[verifier::external_body]
pub(crate) fn write_u64(buffer: &mut Vec<u8>, n: u64)
    ensures
        final(buffer)@ == old(buffer)@ + digits(n as nat, 8),
{
    buffer.write_u64::<BigEndian>(n).unwrap();
}

} // verus!
