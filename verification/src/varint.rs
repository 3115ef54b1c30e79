//! Variable-length integers and the strings whose length they give.

use std::str::Utf8Error;
use vstd::prelude::*;
use vstd::slice::slice_subrange;
use vstd::utf8::{decode_utf8, encode_utf8_decode_utf8, valid_utf8};
use vstd::string::StringSliceAdditionalSpecFns;
use crate::error::{decodes_to, Decoded, ParseError, ParseErrorView};

verus! {

/// The number written at the start of `s` in groups of seven bits, least
/// significant group first, and the bytes after it. A byte below `0x80` ends
/// the number; `None` when `s` runs out before such a byte.
pub open spec fn varint_of(s: Seq<u8>) -> Option<(nat, Seq<u8>)>
    decreases s.len(),
{
    if s.len() == 0 {
        None
    } else if s[0] < 0x80 {
        Some((s[0] as nat, s.skip(1)))
    } else {
        match varint_of(s.skip(1)) {
            Some((high, rest)) => Some(((s[0] - 0x80 + 0x80 * high) as nat, rest)),
            None => None,
        }
    }
}

/// A variable-length integer as a machine number: one that does not fit
/// `usize` is rejected.
pub open spec fn spec_variable_length_little_endian_int(s: Seq<u8>) -> Decoded<usize> {
    match varint_of(s) {
        None => Err(ParseErrorView::Truncated),
        Some((value, rest)) => if value > usize::MAX {
            Err(ParseErrorView::UnknownError)
        } else {
            Ok((value as usize, rest))
        },
    }
}

/// `varint_of` of a whole input, given that of its tail: the groups read so
/// far sum to `low`, and the first group of the tail weighs `weight`.
spec fn resume(low: nat, weight: nat, tail: Option<(nat, Seq<u8>)>) -> Option<(nat, Seq<u8>)> {
    match tail {
        Some((high, rest)) => Some((low + weight * high, rest)),
        None => None,
    }
}

/// `held` stands for the number `n`: it is `n`, or `n` does not fit `usize`.
spec fn stands_for(held: Option<usize>, n: nat) -> bool {
    match held {
        Some(value) => value == n,
        None => n > usize::MAX,
    }
}

proof fn lemma_resume_step(low: nat, weight: nat, group: nat, high: nat)
    ensures
        low + weight * (group + 0x80 * high) == (low + weight * group) + (0x80 * weight) * high,
{
    assert(weight * (group + 0x80 * high) == weight * group + (0x80 * weight) * high)
        by (nonlinear_arith);
}

/// Adds the group `group` of weight `weight` to `sum`.
fn add_group(
    sum: Option<usize>,
    weight: Option<usize>,
    group: u8,
    Ghost(low): Ghost<nat>,
    Ghost(w): Ghost<nat>,
) -> (r: Option<usize>)
    requires
        stands_for(sum, low),
        stands_for(weight, w),
    ensures
        stands_for(r, low + w * (group as nat)),
{
    proof {
        assert(group >= 1 ==> w * group >= w) by (nonlinear_arith);
        assert(group == 0 ==> w * group == 0) by (nonlinear_arith);
    }
    if group == 0 {
        return sum;
    }
    match (sum, weight) {
        (Some(sum), Some(weight)) => match weight.checked_mul(group as usize) {
            Some(term) => sum.checked_add(term),
            None => None,
        },
        _ => None,
    }
}

/// Reads a variable-length unsigned integer.
///
/// Each byte gives seven bits, least significant group first; the top bit of
/// a byte says whether another byte follows. A number that does not fit
/// `usize` is rejected.
pub fn parse_variable_length_little_endian_int<'a>(input: &'a [u8]) -> (r: Result<
    (&'a [u8], usize),
    ParseError<'a>,
>)
    ensures
        decodes_to(r, spec_variable_length_little_endian_int(input@)),
{
    let mut i: usize = 0;
    let mut sum: Option<usize> = Some(0);
    let mut weight: Option<usize> = Some(1);
    let ghost mut low: nat = 0;
    let ghost mut w: nat = 1;
    proof {
        assert(input@.skip(0) =~= input@);
        match varint_of(input@) {
            Some((high, rest)) => {
                assert(low + w * high == high) by (nonlinear_arith)
                    requires
                        low == 0,
                        w == 1,
                ;
            },
            None => {},
        }
    }
    while i < input.len() && input[i] >= 0x80
        invariant
            0 <= i <= input.len(),
            varint_of(input@) == resume(low, w, varint_of(input@.skip(i as int))),
            stands_for(sum, low),
            stands_for(weight, w),
        decreases input.len() - i,
    {
        let group: u8 = input[i] - 0x80;
        proof {
            let tail = input@.skip(i as int);
            assert(tail.skip(1) =~= input@.skip(i + 1));
            match varint_of(tail.skip(1)) {
                Some((high, rest)) => {
                    lemma_resume_step(low, w, group as nat, high);
                },
                None => {},
            }
        }
        sum = add_group(sum, weight, group, Ghost(low), Ghost(w));
        weight = match weight {
            Some(weight) => weight.checked_mul(0x80),
            None => None,
        };
        proof {
            low = low + w * (group as nat);
            w = 0x80 * w;
        }
        i = i + 1;
    }
    if i >= input.len() {
        proof {
            assert(input@.skip(i as int).len() == 0);
        }
        return Err(ParseError::Truncated);
    }
    proof {
        let tail = input@.skip(i as int);
        assert(tail.skip(1) =~= input@.skip(i + 1));
        assert(varint_of(tail) == Some((input@[i as int] as nat, input@.skip(i + 1))));
    }
    match add_group(sum, weight, input[i], Ghost(low), Ghost(w)) {
        Some(value) => Ok((slice_subrange(input, i + 1, input.len()), value)),
        None => Err(ParseError::UnknownError),
    }
}

/// The error that `std::str::from_utf8` reports for `bytes`, which is fixed
/// by the bytes alone.
pub uninterp spec fn utf8_error_of(bytes: Seq<u8>) -> Utf8Error;

/// `std::str::from_utf8`: accepts exactly the byte sequences that are valid
/// UTF-8 and then returns the string slice made of those bytes; otherwise it
/// reports where and why the bytes are not UTF-8.
#[verifier::external_body]
fn str_from_utf8<'a>(bytes: &'a [u8]) -> (r: Result<&'a str, Utf8Error>)
    ensures
        r is Ok <==> valid_utf8(bytes@),
        r is Ok ==> r->Ok_0.spec_bytes() == bytes@,
        r is Err ==> r->Err_0 == utf8_error_of(bytes@),
{
    std::str::from_utf8(bytes)
}

/// A string: its length in bytes as a variable-length integer, then that
/// many bytes, which must be UTF-8. A length beyond the end of the input is a
/// truncation, however large it is.
pub open spec fn spec_string(s: Seq<u8>) -> Decoded<Seq<char>> {
    match varint_of(s) {
        None => Err(ParseErrorView::Truncated),
        Some((length, rest)) => if length > rest.len() {
            Err(ParseErrorView::Truncated)
        } else if !valid_utf8(rest.take(length as int)) {
            Err(ParseErrorView::Utf8Error(utf8_error_of(rest.take(length as int))))
        } else {
            Ok((decode_utf8(rest.take(length as int)), rest.skip(length as int)))
        },
    }
}

/// What follows a variable-length integer is shorter than the input.
pub proof fn lemma_varint_consumes(s: Seq<u8>)
    ensures
        match varint_of(s) {
            Some((value, rest)) => rest.len() < s.len(),
            None => true,
        },
    decreases s.len(),
{
    if s.len() > 0 && s[0] >= 0x80 {
        lemma_varint_consumes(s.skip(1));
    }
}

/// Reads a string: its length in bytes as a variable-length integer, then
/// that many bytes of UTF-8.
pub fn parse_string<'a>(input: &'a [u8]) -> (r: Result<(&'a [u8], &'a str), ParseError<'a>>)
    ensures
        decodes_to(r, spec_string(input@)),
{
    let available = input.len();
    let (input, length) = match parse_variable_length_little_endian_int(input) {
        Ok(found) => found,
        Err(ParseError::UnknownError) => {
            // the length does not fit `usize`, so it exceeds `available`
            proof {
                lemma_varint_consumes(input@);
            }
            return Err(ParseError::Truncated);
        },
        Err(e) => return Err(e),
    };
    if length > input.len() {
        return Err(ParseError::Truncated);
    }
    let bytes = slice_subrange(input, 0, length);
    let rest = slice_subrange(input, length, input.len());
    match str_from_utf8(bytes) {
        Ok(text) => {
            proof {
                encode_utf8_decode_utf8(text@);
            }
            Ok((rest, text))
        },
        Err(e) => Err(ParseError::Utf8Error(e)),
    }
}

} // verus!
