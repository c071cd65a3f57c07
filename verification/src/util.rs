//! Integer packing helpers used by the MakeMKV wire protocol.

use vstd::prelude::*;

verus! {

/// The value of a 64-bit handle made of a high and a low 32-bit word.
pub open spec fn spec_u32s_to_u64(high: u32, low: u32) -> int {
    high * 0x1_0000_0000 + low
}

/// Joins two 32-bit words into one 64-bit value, `high` being the upper word.
pub fn u32s_to_u64(high: u32, low: u32) -> (r: u64)
    ensures
        r == spec_u32s_to_u64(high, low),
{
    assert(((high as u64) << 32u64) == (high as u64) * 0x1_0000_0000u64) by (bit_vector);
    ((high as u64) << 32) + (low as u64)
}

/// Splits a 64-bit value into its little-endian 32-bit words: the low word
/// first, then the high word.
pub fn u64_to_le_u32(value: u64) -> (r: [u32; 2])
    ensures
        r[0] == value % 0x1_0000_0000,
        r[1] == value / 0x1_0000_0000,
{
    let low = (value % 0x1_0000_0000) as u32;
    let high = (value / 0x1_0000_0000) as u32;
    [low, high]
}

/// The first four bytes of a slice, as an array.
pub fn u32_const_slice(slice: &[u8]) -> (r: [u8; 4])
    requires
        slice@.len() >= 4,
    ensures
        r@ == slice@.subrange(0, 4),
{
    let r = [slice[0], slice[1], slice[2], slice[3]];
    assert(r@ =~= slice@.subrange(0, 4));
    r
}

/// Little-endian encoding of a 16-bit value.
///
/// Calls `zerocopy::byteorder::little_endian::U16::new` and `to_bytes`,
/// which store the value low byte first; the contract states those bytes.
#[verifier::external_body]
pub(crate) fn u16_to_le_bytes(value: u16) -> (r: [u8; 2])
    ensures
        r[0] == value % 256,
        r[1] == value / 256,
{
    zerocopy::byteorder::little_endian::U16::new(value).to_bytes()
}

/// Decoding of a little-endian 16-bit value.
///
/// Calls `zerocopy::byteorder::little_endian::U16::from_bytes` and `get`,
/// which read the low byte first; the contract states the value.
#[verifier::external_body]
pub(crate) fn u16_from_le_bytes(bytes: [u8; 2]) -> (r: u16)
    ensures
        r == bytes[0] + 256 * bytes[1],
{
    zerocopy::byteorder::little_endian::U16::from_bytes(bytes).get()
}

/// The little-endian bytes of a 32-bit value.
pub open spec fn spec_u32_le(x: u32) -> Seq<u8> {
    seq![
        (x % 256) as u8,
        ((x / 256) % 256) as u8,
        ((x / 65536) % 256) as u8,
        (x / 16777216) as u8,
    ]
}

/// The value of four little-endian bytes.
pub open spec fn spec_le_u32(b: Seq<u8>) -> int {
    b[0] + 256 * b[1] + 65536 * b[2] + 16777216 * b[3]
}

/// The value of four big-endian bytes.
pub open spec fn spec_be_u32(b: Seq<u8>) -> int {
    16777216 * b[0] + 65536 * b[1] + 256 * b[2] + b[3]
}

/// The little-endian bytes of a 32-bit value.
pub fn u32_to_le_bytes(x: u32) -> (r: [u8; 4])
    ensures
        r@ == spec_u32_le(x),
{
    let r = [(x % 256) as u8, ((x / 256) % 256) as u8, ((x / 65536) % 256) as u8, (x / 16777216) as u8];
    assert(r@ =~= spec_u32_le(x));
    r
}

/// The 32-bit value of four little-endian bytes.
pub fn u32_from_le_bytes(b: [u8; 4]) -> (r: u32)
    ensures
        r == spec_le_u32(b@),
{
    b[0] as u32 + 256 * (b[1] as u32) + 65536 * (b[2] as u32) + 16777216 * (b[3] as u32)
}

/// The 32-bit value of four big-endian bytes.
pub fn u32_from_be_bytes(b: [u8; 4]) -> (r: u32)
    ensures
        r == spec_be_u32(b@),
{
    16777216 * (b[0] as u32) + 65536 * (b[1] as u32) + 256 * (b[2] as u32) + b[3] as u32
}

/// Splitting a handle into words and joining them again gives it back.
pub proof fn lemma_u64_words_roundtrip(value: u64)
    ensures
        spec_u32s_to_u64((value / 0x1_0000_0000) as u32, (value % 0x1_0000_0000) as u32)
            == value,
{
}

/// Joining two words and splitting the result gives the words back.
pub proof fn lemma_u32_words_roundtrip(high: u32, low: u32)
    ensures
        spec_u32s_to_u64(high, low) % 0x1_0000_0000 == low,
        spec_u32s_to_u64(high, low) / 0x1_0000_0000 == high,
{
    assert((high * 0x1_0000_0000 + low) % 0x1_0000_0000 == low as int) by (nonlinear_arith)
        requires
            low < 0x1_0000_0000,
    ;
    assert((high * 0x1_0000_0000 + low) / 0x1_0000_0000 == high as int) by (nonlinear_arith)
        requires
            low < 0x1_0000_0000,
    ;
}

/// Encoding a 32-bit value little-endian and decoding it gives it back.
pub proof fn lemma_u32_le_roundtrip(x: u32)
    ensures
        spec_le_u32(spec_u32_le(x)) == x,
{
}

} // verus!
