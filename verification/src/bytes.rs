//! Fixed-width little-endian integers.

use vstd::prelude::*;
use vstd::slice::slice_subrange;
use crate::error::{decodes_to, Decoded, ParseError, ParseErrorView};

verus! {

/// The unsigned value of the first two bytes of `s`, least significant first.
pub open spec fn le_u16_value(s: Seq<u8>) -> int
    recommends
        s.len() >= 2,
{
    s[0] + 0x100 * s[1]
}

/// The unsigned value of the first four bytes of `s`, least significant first.
pub open spec fn le_u32_value(s: Seq<u8>) -> int
    recommends
        s.len() >= 4,
{
    s[0] + 0x100 * s[1] + 0x1_0000 * s[2] + 0x100_0000 * s[3]
}

/// The unsigned value of the first eight bytes of `s`, least significant first.
pub open spec fn le_u64_value(s: Seq<u8>) -> int
    recommends
        s.len() >= 8,
{
    le_u32_value(s) + 0x1_0000_0000 * le_u32_value(s.skip(4))
}

/// The number that the two's-complement pattern `v` stands for, where `half`
/// is the weight of the sign bit.
pub open spec fn twos_complement(v: int, half: int) -> int {
    if v >= half {
        v - 2 * half
    } else {
        v
    }
}

/// The signed value of the first two bytes of `s`.
pub open spec fn le_i16_value(s: Seq<u8>) -> int
    recommends
        s.len() >= 2,
{
    twos_complement(le_u16_value(s), 0x8000)
}

/// The signed value of the first four bytes of `s`.
pub open spec fn le_i32_value(s: Seq<u8>) -> int
    recommends
        s.len() >= 4,
{
    twos_complement(le_u32_value(s), 0x8000_0000)
}

/// The signed value of the first eight bytes of `s`.
pub open spec fn le_i64_value(s: Seq<u8>) -> int
    recommends
        s.len() >= 8,
{
    twos_complement(le_u64_value(s), 0x8000_0000_0000_0000)
}

/// The unsigned 32-bit integer stored at offset `at` of `s`.
pub open spec fn u32_at(s: Seq<u8>, at: int) -> u32
    recommends
        0 <= at && at + 4 <= s.len(),
{
    le_u32_value(s.skip(at)) as u32
}

/// The signed 16-bit integer stored at offset `at` of `s`.
pub open spec fn i16_at(s: Seq<u8>, at: int) -> i16
    recommends
        0 <= at && at + 2 <= s.len(),
{
    le_i16_value(s.skip(at)) as i16
}

/// The signed 32-bit integer stored at offset `at` of `s`.
pub open spec fn i32_at(s: Seq<u8>, at: int) -> i32
    recommends
        0 <= at && at + 4 <= s.len(),
{
    le_i32_value(s.skip(at)) as i32
}

/// The signed 64-bit integer stored at offset `at` of `s`.
pub open spec fn i64_at(s: Seq<u8>, at: int) -> i64
    recommends
        0 <= at && at + 8 <= s.len(),
{
    le_i64_value(s.skip(at)) as i64
}

/// Skipping `a` bytes and then `b` more is skipping `a + b`.
pub proof fn lemma_skip_skip(s: Seq<u8>, a: int, b: int)
    requires
        0 <= a,
        0 <= b,
        a + b <= s.len(),
    ensures
        s.skip(a).skip(b) == s.skip(a + b),
{
    assert(s.skip(a).skip(b) =~= s.skip(a + b));
}

/// One byte, if there is one.
pub open spec fn spec_le_u8(s: Seq<u8>) -> Decoded<u8> {
    if s.len() < 1 {
        Err(ParseErrorView::Truncated)
    } else {
        Ok((s[0], s.skip(1)))
    }
}

/// An unsigned 32-bit integer in four bytes, if there are four.
pub open spec fn spec_le_u32(s: Seq<u8>) -> Decoded<u32> {
    if s.len() < 4 {
        Err(ParseErrorView::Truncated)
    } else {
        Ok((le_u32_value(s) as u32, s.skip(4)))
    }
}

/// A signed 16-bit integer in two bytes, if there are two.
pub open spec fn spec_le_i16(s: Seq<u8>) -> Decoded<i16> {
    if s.len() < 2 {
        Err(ParseErrorView::Truncated)
    } else {
        Ok((le_i16_value(s) as i16, s.skip(2)))
    }
}

/// A signed 32-bit integer in four bytes, if there are four.
pub open spec fn spec_le_i32(s: Seq<u8>) -> Decoded<i32> {
    if s.len() < 4 {
        Err(ParseErrorView::Truncated)
    } else {
        Ok((le_i32_value(s) as i32, s.skip(4)))
    }
}

/// A signed 64-bit integer in eight bytes, if there are eight.
pub open spec fn spec_le_i64(s: Seq<u8>) -> Decoded<i64> {
    if s.len() < 8 {
        Err(ParseErrorView::Truncated)
    } else {
        Ok((le_i64_value(s) as i64, s.skip(8)))
    }
}

/// Reads one byte.
pub fn le_u8<'a>(input: &'a [u8]) -> (r: Result<(&'a [u8], u8), ParseError<'a>>)
    ensures
        decodes_to(r, spec_le_u8(input@)),
{
    if input.len() < 1 {
        return Err(ParseError::Truncated);
    }
    let rest = slice_subrange(input, 1, input.len());
    Ok((rest, input[0]))
}

/// Reads an unsigned 32-bit integer, least significant byte first.
pub fn le_u32<'a>(input: &'a [u8]) -> (r: Result<(&'a [u8], u32), ParseError<'a>>)
    ensures
        decodes_to(r, spec_le_u32(input@)),
{
    if input.len() < 4 {
        return Err(ParseError::Truncated);
    }
    let b0: u32 = input[0] as u32;
    let b1: u32 = input[1] as u32;
    let b2: u32 = input[2] as u32;
    let b3: u32 = input[3] as u32;
    let value: u32 = b0 + 0x100 * b1 + 0x1_0000 * b2 + 0x100_0000 * b3;
    let rest = slice_subrange(input, 4, input.len());
    Ok((rest, value))
}

/// Reads a signed 16-bit integer, least significant byte first.
pub fn le_i16<'a>(input: &'a [u8]) -> (r: Result<(&'a [u8], i16), ParseError<'a>>)
    ensures
        decodes_to(r, spec_le_i16(input@)),
{
    if input.len() < 2 {
        return Err(ParseError::Truncated);
    }
    let b0: u16 = input[0] as u16;
    let b1: u16 = input[1] as u16;
    let pattern: u16 = b0 + 0x100 * b1;
    let value: i16 = if pattern >= 0x8000 {
        (pattern - 0x8000) as i16 + i16::MIN
    } else {
        pattern as i16
    };
    let rest = slice_subrange(input, 2, input.len());
    Ok((rest, value))
}

/// Reads a signed 32-bit integer, least significant byte first.
pub fn le_i32<'a>(input: &'a [u8]) -> (r: Result<(&'a [u8], i32), ParseError<'a>>)
    ensures
        decodes_to(r, spec_le_i32(input@)),
{
    let (rest, pattern) = le_u32(input)?;
    let value: i32 = if pattern >= 0x8000_0000 {
        (pattern - 0x8000_0000) as i32 + i32::MIN
    } else {
        pattern as i32
    };
    Ok((rest, value))
}

/// Reads a signed 64-bit integer, least significant byte first.
pub fn le_i64<'a>(input: &'a [u8]) -> (r: Result<(&'a [u8], i64), ParseError<'a>>)
    ensures
        decodes_to(r, spec_le_i64(input@)),
{
    if input.len() < 8 {
        return Err(ParseError::Truncated);
    }
    let (high_part, low) = le_u32(input)?;
    let (rest, high) = le_u32(high_part)?;
    let pattern: u64 = low as u64 + 0x1_0000_0000 * (high as u64);
    let value: i64 = if pattern >= 0x8000_0000_0000_0000 {
        (pattern - 0x8000_0000_0000_0000) as i64 + i64::MIN
    } else {
        pattern as i64
    };
    proof {
        assert(input@.skip(4).skip(4) =~= input@.skip(8));
    }
    Ok((rest, value))
}

} // verus!
