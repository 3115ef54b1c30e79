//! The ways in which decoding can fail.

use std::str::Utf8Error;
use vstd::prelude::*;
use vstd::string::{to_string_from_display_ensures, StringExecFns};

verus! {

/// `std::str::Utf8Error`, the report of `std::str::from_utf8` on bytes that
/// are not UTF-8. Its contents are not modelled; values are only passed on.
#[verifier::external_type_specification]
#[verifier::external_body]
pub struct ExUtf8Error(Utf8Error);

/// Why a buffer was rejected. Decoding stops at the first failure.
#[derive(Debug, PartialEq, Eq)]
pub enum ParseError<'a> {
    /// A polygon's colour byte is outside `1..=7`.
    InvalidColor(u8),
    /// The buffer does not start with the magic bytes; holds the (up to
    /// three) bytes found in their place.
    InvalidHeader(&'a [u8]),
    /// The buffer ends inside a field.
    Truncated,
    /// A cross-section refers to the undefined station.
    UndefinedStation,
    /// The input does not match the grammar in a way no other variant names.
    UnknownError,
    /// The version byte is not the supported one.
    UnsupportedVersion(u8),
    /// The bytes of a string are not valid UTF-8.
    Utf8Error(Utf8Error),
}

/// Mathematical counterpart of [`ParseError`].
pub enum ParseErrorView {
    InvalidColor(u8),
    InvalidHeader(Seq<u8>),
    Truncated,
    UndefinedStation,
    UnknownError,
    UnsupportedVersion(u8),
    Utf8Error(Utf8Error),
}

impl<'a> DeepView for ParseError<'a> {
    type V = ParseErrorView;

    open spec fn deep_view(&self) -> ParseErrorView {
        match *self {
            ParseError::InvalidColor(b) => ParseErrorView::InvalidColor(b),
            ParseError::InvalidHeader(found) => ParseErrorView::InvalidHeader(found@),
            ParseError::Truncated => ParseErrorView::Truncated,
            ParseError::UndefinedStation => ParseErrorView::UndefinedStation,
            ParseError::UnknownError => ParseErrorView::UnknownError,
            ParseError::UnsupportedVersion(v) => ParseErrorView::UnsupportedVersion(v),
            ParseError::Utf8Error(e) => ParseErrorView::Utf8Error(e),
        }
    }
}

/// What a decoder yields on a byte sequence: the decoded value together with
/// the bytes that follow it, or the reason for rejecting the input.
pub type Decoded<T> = Result<(T, Seq<u8>), ParseErrorView>;

/// `r` is the executable form of the outcome `expected`.
pub open spec fn decodes_to<'a, T: DeepView>(
    r: Result<(&'a [u8], T), ParseError<'a>>,
    expected: Decoded<T::V>,
) -> bool {
    match r {
        Ok((rest, value)) => expected == Ok::<(T::V, Seq<u8>), ParseErrorView>(
            (value.deep_view(), rest@),
        ),
        Err(e) => expected == Err::<(T::V, Seq<u8>), ParseErrorView>(e.deep_view()),
    }
}

/// The sixteen digits, in order of their value.
pub open spec fn digits() -> Seq<char> {
    seq!['0', '1', '2', '3', '4', '5', '6', '7', '8', '9', 'A', 'B', 'C', 'D', 'E', 'F']
}

/// `n` written in decimal, without leading zeros.
pub open spec fn decimal(n: nat) -> Seq<char>
    decreases n,
{
    if n < 10 {
        seq![digits()[n as int]]
    } else {
        decimal(n / 10).push(digits()[(n % 10) as int])
    }
}

/// `byte` written as two hexadecimal digits.
pub open spec fn hex_pair(byte: u8) -> Seq<char> {
    seq![digits()[byte as int / 16], digits()[byte as int % 16]]
}

/// The numbers of `bytes` in decimal, with a comma and a space between
/// neighbours.
pub open spec fn listed(bytes: Seq<u8>) -> Seq<char>
    decreases bytes.len(),
{
    if bytes.len() == 0 {
        Seq::empty()
    } else if bytes.len() == 1 {
        decimal(bytes[0] as nat)
    } else {
        listed(bytes.drop_last()) + seq![',', ' '] + decimal(bytes.last() as nat)
    }
}

/// The text that describes a failure, where this library words it. Invalid
/// UTF-8 is described by the error it carries, in that error's own words.
pub open spec fn message_of(e: ParseErrorView) -> Option<Seq<char>> {
    match e {
        ParseErrorView::InvalidColor(byte) => Some("invalid color: 0x"@ + hex_pair(byte)),
        ParseErrorView::InvalidHeader(found) => Some(
            "invalid header: ["@ + listed(found) + seq![']'],
        ),
        ParseErrorView::Truncated => Some("unexpected end of input"@),
        ParseErrorView::UndefinedStation => Some("undefined station"@),
        ParseErrorView::UnknownError => Some("unknown error"@),
        ParseErrorView::UnsupportedVersion(version) => Some(
            "unsupported version: "@ + decimal(version as nat),
        ),
        ParseErrorView::Utf8Error(_) => None,
    }
}

/// The digit of value `d` as a string.
fn digit_str(d: u8) -> (r: &'static str)
    requires
        d < 16,
    ensures
        r@ == seq![digits()[d as int]],
{
    proof {
        reveal_strlit("0");
        reveal_strlit("1");
        reveal_strlit("2");
        reveal_strlit("3");
        reveal_strlit("4");
        reveal_strlit("5");
        reveal_strlit("6");
        reveal_strlit("7");
        reveal_strlit("8");
        reveal_strlit("9");
        reveal_strlit("A");
        reveal_strlit("B");
        reveal_strlit("C");
        reveal_strlit("D");
        reveal_strlit("E");
        reveal_strlit("F");
    }
    let r = match d {
        0 => "0",
        1 => "1",
        2 => "2",
        3 => "3",
        4 => "4",
        5 => "5",
        6 => "6",
        7 => "7",
        8 => "8",
        9 => "9",
        10 => "A",
        11 => "B",
        12 => "C",
        13 => "D",
        14 => "E",
        _ => "F",
    };
    assert(r@ =~= seq![digits()[d as int]]);
    r
}

/// Appends `n` in decimal to `text`.
fn push_decimal(text: &mut String, n: u8)
    ensures
        final(text)@ == old(text)@ + decimal(n as nat),
{
    let ghost before = text@;
    proof {
        reveal_with_fuel(decimal, 3);
    }
    if n >= 100 {
        text.append(digit_str(n / 100));
    }
    if n >= 10 {
        text.append(digit_str((n / 10) % 10));
    }
    text.append(digit_str(n % 10));
    assert(text@ =~= before + decimal(n as nat));
}

/// Appends the numbers of `bytes` to `text`, separated by commas.
fn push_listed(text: &mut String, bytes: &[u8])
    ensures
        final(text)@ == old(text)@ + listed(bytes@),
{
    let ghost before = text@;
    let mut i: usize = 0;
    proof {
        reveal_strlit(", ");
        assert(bytes@.take(0).len() == 0);
        assert(text@ =~= before + listed(bytes@.take(0)));
    }
    while i < bytes.len()
        invariant
            0 <= i <= bytes.len(),
            text@ == before + listed(bytes@.take(i as int)),
        decreases bytes.len() - i,
    {
        let ghost so_far = text@;
        if i > 0 {
            text.append(", ");
        }
        push_decimal(text, bytes[i]);
        proof {
            let next = bytes@.take(i + 1);
            assert(next.drop_last() =~= bytes@.take(i as int));
            assert(next.last() == bytes@[i as int]);
            reveal_strlit(", ");
            assert(", "@ =~= seq![',', ' ']);
            if i == 0 {
                assert(listed(bytes@.take(0)) =~= Seq::<char>::empty());
                assert(text@ =~= before + listed(next));
            } else {
                assert(text@ =~= before + listed(next));
            }
        }
        i = i + 1;
    }
    proof {
        assert(bytes@.take(bytes@.len() as int) =~= bytes@);
    }
}

impl<'a> ParseError<'a> {
    /// Describes the failure in words.
    ///
    /// For invalid UTF-8 the text is the one that the underlying error
    /// displays; every other text is given by `message_of`.
    pub fn to_string(&self) -> (r: String)
        ensures
            match *self {
                ParseError::Utf8Error(e) => to_string_from_display_ensures::<Utf8Error>(&e, r),
                _ => message_of(self.deep_view()) == Some(r@),
            },
    {
        match self {
            ParseError::InvalidColor(byte) => {
                let mut text = String::from_str("invalid color: 0x");
                let ghost before = text@;
                text.append(digit_str(*byte / 16));
                text.append(digit_str(*byte % 16));
                assert(text@ =~= before + hex_pair(*byte));
                text
            },
            ParseError::InvalidHeader(found) => {
                let mut text = String::from_str("invalid header: [");
                push_listed(&mut text, found);
                text.append("]");
                proof {
                    reveal_strlit("]");
                    assert("]"@ =~= seq![']']);
                }
                text
            },
            ParseError::Truncated => String::from_str("unexpected end of input"),
            ParseError::UndefinedStation => String::from_str("undefined station"),
            ParseError::UnknownError => String::from_str("unknown error"),
            ParseError::UnsupportedVersion(version) => {
                let mut text = String::from_str("unsupported version: ");
                push_decimal(&mut text, *version);
                text
            },
            ParseError::Utf8Error(e) => e.to_string(),
        }
    }
}

} // verus!
