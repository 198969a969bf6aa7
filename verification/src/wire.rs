//! Little-endian integers inside byte buffers.

use byteorder::{ByteOrder, LittleEndian};
use vstd::prelude::*;
use vstd::slice::slice_subrange;

verus! {

/// The number that a run of bytes spells, least significant byte first.
pub open spec fn le_value(bytes: Seq<u8>) -> nat
    decreases bytes.len(),
{
    if bytes.len() == 0 {
        0
    } else {
        bytes[0] as nat + 256 * le_value(bytes.drop_first())
    }
}

/// The `width` bytes that spell `value` least significant byte first; higher
/// digits of `value` are dropped.
pub open spec fn le_bytes(value: nat, width: nat) -> Seq<u8>
    decreases width,
{
    if width == 0 {
        Seq::empty()
    } else {
        seq![(value % 256) as u8] + le_bytes(value / 256, (width - 1) as nat)
    }
}

/// 256 to the power of `width`: the number of values that `width` bytes spell.
pub open spec fn byte_span(width: nat) -> nat
    decreases width,
{
    if width == 0 {
        1
    } else {
        256 * byte_span((width - 1) as nat)
    }
}

/// `le_bytes` yields exactly `width` bytes.
pub proof fn lemma_le_bytes_len(value: nat, width: nat)
    ensures
        le_bytes(value, width).len() == width,
    decreases width,
{
    if width > 0 {
        lemma_le_bytes_len(value / 256, (width - 1) as nat);
    }
}

/// Bytes written least significant first read back as the number they were
/// written from, as long as the number fits into them.
pub proof fn lemma_le_round_trip(value: nat, width: nat)
    requires
        value < byte_span(width),
    ensures
        le_value(le_bytes(value, width)) == value,
    decreases width,
{
    if width > 0 {
        let head = seq![(value % 256) as u8];
        let tail = le_bytes(value / 256, (width - 1) as nat);
        assert((head + tail).drop_first() =~= tail);
        assert(value / 256 < byte_span((width - 1) as nat)) by (nonlinear_arith)
            requires
                value < 256 * byte_span((width - 1) as nat),
        ;
        lemma_le_round_trip(value / 256, (width - 1) as nat);
        assert(value == value % 256 + 256 * (value / 256)) by (nonlinear_arith);
    }
}

/// What a run of bytes spells is below the span of its length.
pub proof fn lemma_le_value_bound(bytes: Seq<u8>)
    ensures
        le_value(bytes) < byte_span(bytes.len()),
    decreases bytes.len(),
{
    if bytes.len() > 0 {
        lemma_le_value_bound(bytes.drop_first());
    }
}

/// Two, four and eight bytes spell what 16, 32 and 64 bits hold.
pub proof fn lemma_le_value_fits(bytes: Seq<u8>)
    ensures
        bytes.len() == 2 ==> le_value(bytes) <= u16::MAX,
        bytes.len() == 4 ==> le_value(bytes) <= u32::MAX,
        bytes.len() == 8 ==> le_value(bytes) <= u64::MAX,
{
    lemma_le_value_bound(bytes);
    reveal_with_fuel(byte_span, 9);
}

/// The signed reading of a 16-bit pattern in two's complement.
pub open spec fn as_signed_16(pattern: nat) -> int {
    if pattern < 0x8000 {
        pattern as int
    } else {
        pattern as int - 0x1_0000
    }
}

/// `byteorder::ByteOrder::read_i16` of `LittleEndian`: the first two bytes of
/// the slice, least significant first, taken as a two's complement pattern.
/// The outside function panics on a shorter slice, which `requires` leaves
/// out.
#[verifier::external_body]
pub(crate) fn le_read_i16(bytes: &[u8]) -> (value: i16)
    requires
        bytes@.len() >= 2,
    ensures
        value as int == as_signed_16(le_value(bytes@.subrange(0, 2))),
{
    LittleEndian::read_i16(bytes)
}

/// `byteorder::LittleEndian::read_u32`: the first four bytes of the slice,
/// least significant first. The outside function panics on a shorter slice,
/// which `requires` leaves out.
#[verifier::external_body]
pub(crate) fn le_read_u32(bytes: &[u8]) -> (value: u32)
    requires
        bytes@.len() >= 4,
    ensures
        value as nat == le_value(bytes@.subrange(0, 4)),
{
    LittleEndian::read_u32(bytes)
}

/// `byteorder::LittleEndian::read_u64`: the first eight bytes of the slice,
/// least significant first. The outside function panics on a shorter slice,
/// which `requires` leaves out.
#[verifier::external_body]
pub(crate) fn le_read_u64(bytes: &[u8]) -> (value: u64)
    requires
        bytes@.len() >= 8,
    ensures
        value as nat == le_value(bytes@.subrange(0, 8)),
{
    LittleEndian::read_u64(bytes)
}

/// `byteorder::LittleEndian::write_u32` on a four-byte buffer: the bytes of
/// `value`, least significant first.
#[verifier::external_body]
pub(crate) fn le_write_u32(value: u32) -> (bytes: [u8; 4])
    ensures
        bytes@ == le_bytes(value as nat, 4),
{
    let mut bytes = [0u8; 4];
    LittleEndian::write_u32(&mut bytes, value);
    bytes
}

/// `byteorder::LittleEndian::write_u64` on an eight-byte buffer: the bytes of
/// `value`, least significant first.
#[verifier::external_body]
pub(crate) fn le_write_u64(value: u64) -> (bytes: [u8; 8])
    ensures
        bytes@ == le_bytes(value as nat, 8),
{
    let mut bytes = [0u8; 8];
    LittleEndian::write_u64(&mut bytes, value);
    bytes
}

/// The signed 16-bit number at `at`, or `None` where the buffer ends before
/// its second byte.
pub fn i16_at(buffer: &[u8], at: usize) -> (value: Option<i16>)
    ensures
        at + 2 <= buffer@.len() ==> value == Some(
            as_signed_16(le_value(buffer@.subrange(at as int, at + 2))) as i16,
        ),
        at + 2 > buffer@.len() ==> value is None,
{
    if at > buffer.len() || buffer.len() - at < 2 {
        return None;
    }
    let field = slice_subrange(buffer, at, at + 2);
    assert(field@.subrange(0, 2) =~= field@);
    Some(le_read_i16(field))
}

/// The unsigned 32-bit number at `at`, or `None` where the buffer ends before
/// its fourth byte.
pub fn u32_at(buffer: &[u8], at: usize) -> (value: Option<u32>)
    ensures
        at + 4 <= buffer@.len() ==> value == Some(
            le_value(buffer@.subrange(at as int, at + 4)) as u32,
        ),
        at + 4 > buffer@.len() ==> value is None,
{
    if at > buffer.len() || buffer.len() - at < 4 {
        return None;
    }
    let field = slice_subrange(buffer, at, at + 4);
    assert(field@.subrange(0, 4) =~= field@);
    Some(le_read_u32(field))
}

/// The unsigned 64-bit number at `at`, or `None` where the buffer ends before
/// its eighth byte.
pub fn u64_at(buffer: &[u8], at: usize) -> (value: Option<u64>)
    ensures
        at + 8 <= buffer@.len() ==> value == Some(
            le_value(buffer@.subrange(at as int, at + 8)) as u64,
        ),
        at + 8 > buffer@.len() ==> value is None,
{
    if at > buffer.len() || buffer.len() - at < 8 {
        return None;
    }
    let field = slice_subrange(buffer, at, at + 8);
    assert(field@.subrange(0, 8) =~= field@);
    Some(le_read_u64(field))
}

} // verus!
