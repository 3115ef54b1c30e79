//! Counted sequences: a 32-bit count followed by that many records.

use vstd::prelude::*;
use crate::bytes::spec_le_u32;
use crate::error::{Decoded, ParseErrorView};

verus! {

/// `count` records in a row, each decoded by `item` from where the one
/// before it ended. The first failure is the failure of the whole.
pub open spec fn repeated<T>(
    item: spec_fn(Seq<u8>) -> Decoded<T>,
    count: nat,
    s: Seq<u8>,
) -> Decoded<Seq<T>>
    decreases count,
{
    if count == 0 {
        Ok((Seq::empty(), s))
    } else {
        match item(s) {
            Err(e) => Err(e),
            Ok((first, rest)) => match repeated(item, (count - 1) as nat, rest) {
                Err(e) => Err(e),
                Ok((others, rest)) => Ok((seq![first] + others, rest)),
            },
        }
    }
}

/// A little-endian 32-bit count and then that many records.
pub open spec fn length_count<T>(item: spec_fn(Seq<u8>) -> Decoded<T>, s: Seq<u8>) -> Decoded<
    Seq<T>,
> {
    match spec_le_u32(s) {
        Err(e) => Err(e),
        Ok((count, rest)) => repeated(item, count as nat, rest),
    }
}

/// The outcome `tail` of decoding the remaining records, with the records
/// `done` that were decoded before them put in front.
pub open spec fn prepend<T>(done: Seq<T>, tail: Decoded<Seq<T>>) -> Decoded<Seq<T>> {
    match tail {
        Err(e) => Err(e),
        Ok((others, rest)) => Ok((done + others, rest)),
    }
}

/// Nothing in front changes nothing.
pub proof fn lemma_prepend_nothing<T>(tail: Decoded<Seq<T>>)
    ensures
        prepend(Seq::empty(), tail) == tail,
{
    match tail {
        Err(e) => {},
        Ok((others, rest)) => {
            assert(Seq::<T>::empty() + others =~= others);
        },
    }
}

/// Decoding one more record moves it from the remaining ones to those done.
pub proof fn lemma_repeated_step<T>(
    item: spec_fn(Seq<u8>) -> Decoded<T>,
    count: nat,
    s: Seq<u8>,
    done: Seq<T>,
)
    requires
        count > 0,
    ensures
        prepend(done, repeated(item, count, s)) == match item(s) {
            Err(e) => Err(e),
            Ok((first, rest)) => prepend(
                done.push(first),
                repeated(item, (count - 1) as nat, rest),
            ),
        },
{
    match item(s) {
        Err(e) => {},
        Ok((first, rest)) => {
            match repeated(item, (count - 1) as nat, rest) {
                Err(e) => {},
                Ok((others, rest)) => {
                    assert(done + (seq![first] + others) =~= done.push(first) + others);
                },
            }
        },
    }
}

/// When no record remains, those done are the result.
pub proof fn lemma_repeated_done<T>(item: spec_fn(Seq<u8>) -> Decoded<T>, s: Seq<u8>, done: Seq<T>)
    ensures
        prepend(done, repeated(item, 0, s)) == Ok::<(Seq<T>, Seq<u8>), ParseErrorView>((done, s)),
{
    assert(done + Seq::<T>::empty() =~= done);
}

/// What holds of every record that `item` decodes holds of all the records
/// of a sequence.
pub proof fn lemma_repeated_all<T>(
    item: spec_fn(Seq<u8>) -> Decoded<T>,
    count: nat,
    s: Seq<u8>,
    holds: spec_fn(T) -> bool,
)
    requires
        forall|input: Seq<u8>| (#[trigger] item(input)) matches Ok((record, _)) ==> holds(record),
    ensures
        repeated(item, count, s) matches Ok((records, _)) ==> records.len() == count && forall|
            i: int,
        |
            0 <= i < records.len() ==> holds(#[trigger] records[i]),
    decreases count,
{
    if count > 0 {
        match item(s) {
            Err(e) => {},
            Ok((first, rest)) => {
                lemma_repeated_all(item, (count - 1) as nat, rest, holds);
            },
        }
    }
}

} // verus!
