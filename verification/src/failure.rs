//! Reading the failures of the check that `bdk_reserves` performs.
//!
//! The check reports a failure as a text: the name of the failure, and for
//! most of them the position of the input at fault in round brackets, as in
//! `NotSignedInput(1)`. This module turns such a text into the library's own
//! kinds of error.

use vstd::prelude::*;
use vstd::utf8::encode_utf8;
use crate::error::VerifyError;

verus! {

/// The position of the first opening bracket at or after `from`; the length
/// of the text where there is none.
pub open spec fn bracket_from(bytes: Seq<u8>, from: int) -> int
    decreases bytes.len() - from,
{
    if from >= bytes.len() {
        bytes.len() as int
    } else if bytes[from] == 0x28 {
        from
    } else {
        bracket_from(bytes, from + 1)
    }
}

/// The name of a failure: its text up to the first opening bracket.
pub open spec fn failure_name(bytes: Seq<u8>) -> Seq<u8> {
    bytes.take(bracket_from(bytes, 0))
}

/// A decimal digit in ASCII.
pub open spec fn is_digit(byte: u8) -> bool {
    0x30 <= byte <= 0x39
}

/// The end of the run of digits that starts at `from`.
pub open spec fn digits_end(bytes: Seq<u8>, from: int) -> int
    decreases bytes.len() - from,
{
    if from >= bytes.len() || !is_digit(bytes[from]) {
        from
    } else {
        digits_end(bytes, from + 1)
    }
}

/// The number that the digits from `from` up to `to` spell.
pub open spec fn decimal(bytes: Seq<u8>, from: int, to: int) -> nat
    decreases to - from,
{
    if to <= from {
        0
    } else {
        decimal(bytes, from, to - 1) * 10 + (bytes[to - 1] - 0x30) as nat
    }
}

/// The position that a failure carries: the number right after its first
/// opening bracket, where there is one and a `usize` holds it.
pub open spec fn failure_index(bytes: Seq<u8>) -> Option<usize> {
    let start = bracket_from(bytes, 0) + 1;
    let end = digits_end(bytes, start);
    if start < end && decimal(bytes, start, end) <= usize::MAX {
        Some(decimal(bytes, start, end) as usize)
    } else {
        None
    }
}

/// The failure is of a kind that blames the input's claim on an output.
pub open spec fn names_unspendable(name: Seq<u8>) -> bool {
    name == encode_utf8("NonSpendableInput"@) || name == encode_utf8("OutpointNotFound"@)
}

/// The failure is of a kind that blames the input's signature.
pub open spec fn names_signature(name: Seq<u8>) -> bool {
    ||| name == encode_utf8("NotSignedInput"@)
    ||| name == encode_utf8("UnsupportedSighashType"@)
    ||| name == encode_utf8("NeitherWitnessNorLegacy"@)
    ||| name == encode_utf8("SignatureValidation"@)
}

/// The failure is of a kind that blames what is known of the chain.
pub open spec fn names_chain(name: Seq<u8>) -> bool {
    name == encode_utf8("MissingConfirmationInfo"@) || name == encode_utf8("BdkError"@)
}

/// The error that a failure of the check amounts to.
///
/// A failure that blames an input keeps the input's position. One that
/// blames the shape of the transaction (the number of its inputs or outputs,
/// what its output pays to or how much), or whose text cannot be read, makes
/// the proof malformed.
pub open spec fn classify(text: Seq<char>) -> VerifyError {
    let bytes = encode_utf8(text);
    let name = failure_name(bytes);
    if name == encode_utf8("ChallengeInputMismatch"@) {
        VerifyError::MessageMismatch
    } else if names_chain(name) {
        VerifyError::ChainQueryError
    } else if names_unspendable(name) && failure_index(bytes) is Some {
        VerifyError::NonSpendableInput(failure_index(bytes)->0)
    } else if names_signature(name) && failure_index(bytes) is Some {
        VerifyError::InvalidSignature(failure_index(bytes)->0)
    } else {
        VerifyError::MalformedProof
    }
}

/// A number only grows when more digits are read.
proof fn lemma_decimal_grows(bytes: Seq<u8>, from: int, a: int, b: int)
    requires
        from <= a <= b,
    ensures
        decimal(bytes, from, a) <= decimal(bytes, from, b),
    decreases b - a,
{
    if a < b {
        lemma_decimal_grows(bytes, from, a, b - 1);
    }
}

/// Finds the end of a failure's name.
fn name_end(bytes: &[u8]) -> (end: usize)
    ensures
        end == bracket_from(bytes@, 0),
        end <= bytes.len(),
{
    let mut i: usize = 0;
    while i < bytes.len() && bytes[i] != 0x28
        invariant
            i <= bytes.len(),
            bracket_from(bytes@, 0) == bracket_from(bytes@, i as int),
        decreases bytes.len() - i,
    {
        i += 1;
    }
    i
}

/// Whether the first `end` bytes of a text spell `name`.
fn name_is(bytes: &[u8], end: usize, name: &str) -> (same: bool)
    requires
        end <= bytes.len(),
    ensures
        same == (bytes@.take(end as int) == encode_utf8(name@)),
{
    let wanted = name.as_bytes();
    if wanted.len() != end {
        return false;
    }
    let mut i: usize = 0;
    while i < end
        invariant
            i <= end <= bytes.len(),
            wanted@.len() == end,
            wanted@ == encode_utf8(name@),
            forall|j: int| 0 <= j < i ==> bytes@[j] == wanted@[j],
        decreases end - i,
    {
        if bytes[i] != wanted[i] {
            assert(bytes@.take(end as int)[i as int] != wanted@[i as int]);
            return false;
        }
        i += 1;
    }
    assert(bytes@.take(end as int) =~= wanted@);
    true
}

/// Reads the position that follows the name of a failure.
fn read_index(bytes: &[u8], end: usize) -> (index: Option<usize>)
    requires
        end == bracket_from(bytes@, 0),
    ensures
        index == failure_index(bytes@),
{
    if end >= bytes.len() {
        assert(digits_end(bytes@, end + 1) == end + 1);
        return None;
    }
    let start = end + 1;
    let mut i: usize = start;
    let mut value: usize = 0;
    while i < bytes.len() && 0x30 <= bytes[i] && bytes[i] <= 0x39
        invariant
            start <= i <= bytes.len(),
            start == bracket_from(bytes@, 0) + 1,
            digits_end(bytes@, start as int) == digits_end(bytes@, i as int),
            value == decimal(bytes@, start as int, i as int),
        decreases bytes.len() - i,
    {
        let digit: usize = (bytes[i] - 0x30) as usize;
        if value > (usize::MAX - digit) / 10 {
            proof {
                let stop = digits_end(bytes@, start as int);
                assert(is_digit(bytes@[i as int]));
                assert(digits_end(bytes@, i as int) == digits_end(bytes@, i + 1));
                lemma_digits_end_bounds(bytes@, i + 1);
                lemma_decimal_grows(bytes@, start as int, i + 1, stop);
                assert(decimal(bytes@, start as int, i + 1) == value * 10 + digit);
                assert(value * 10 + digit > usize::MAX);
            }
            return None;
        }
        assert(is_digit(bytes@[i as int]));
        assert(decimal(bytes@, start as int, i + 1) == value * 10 + digit);
        value = value * 10 + digit;
        i += 1;
    }
    if i == start {
        None
    } else {
        Some(value)
    }
}

/// A run of digits ends at or after its start, within the text or where it
/// started.
proof fn lemma_digits_end_bounds(bytes: Seq<u8>, from: int)
    ensures
        from <= digits_end(bytes, from),
    decreases bytes.len() - from,
{
    if from < bytes.len() && is_digit(bytes[from]) {
        lemma_digits_end_bounds(bytes, from + 1);
    }
}

/// Turns the text of a failure of the check into an error.
pub fn classify_failure(text: &str) -> (error: VerifyError)
    ensures
        error == classify(text@),
{
    let bytes = text.as_bytes();
    let end = name_end(bytes);
    if name_is(bytes, end, "ChallengeInputMismatch") {
        return VerifyError::MessageMismatch;
    }
    if name_is(bytes, end, "MissingConfirmationInfo") || name_is(bytes, end, "BdkError") {
        return VerifyError::ChainQueryError;
    }
    let unspendable = name_is(bytes, end, "NonSpendableInput") || name_is(
        bytes,
        end,
        "OutpointNotFound",
    );
    let signature = name_is(bytes, end, "NotSignedInput") || name_is(
        bytes,
        end,
        "UnsupportedSighashType",
    ) || name_is(bytes, end, "NeitherWitnessNorLegacy") || name_is(
        bytes,
        end,
        "SignatureValidation",
    );
    if unspendable || signature {
        match read_index(bytes, end) {
            Some(index) => {
                if unspendable {
                    return VerifyError::NonSpendableInput(index);
                }
                return VerifyError::InvalidSignature(index);
            },
            None => {},
        }
    }
    VerifyError::MalformedProof
}

} // verus!
