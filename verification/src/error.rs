//! How a verification can fail, and what it yields when it does not.

use vstd::prelude::*;

verus! {

/// The ways in which a request is turned down. An index is the position of
/// the offending address or transaction input, counted from 0.
#[derive(Clone, Copy, Debug, PartialEq, Eq, Structural)]
pub enum VerifyError {
    /// The proof text is no valid base64.
    EncodingError,
    /// The decoded bytes are no well-formed proof transaction.
    MalformedProof,
    /// The request names no address.
    NoAddressProvided,
    /// The address at this position cannot be parsed.
    InvalidAddress(usize),
    /// The chain could not be asked, or its answers do not fit together.
    ChainQueryError,
    /// The first input does not commit to the message.
    MessageMismatch,
    /// The input at this position spends nothing that is unspent at the
    /// claimed addresses.
    NonSpendableInput(usize),
    /// The input at this position is not validly signed.
    InvalidSignature(usize),
}

/// The character that writes a digit.
pub open spec fn digit_char(digit: nat) -> char {
    if digit == 0 {
        '0'
    } else if digit == 1 {
        '1'
    } else if digit == 2 {
        '2'
    } else if digit == 3 {
        '3'
    } else if digit == 4 {
        '4'
    } else if digit == 5 {
        '5'
    } else if digit == 6 {
        '6'
    } else if digit == 7 {
        '7'
    } else if digit == 8 {
        '8'
    } else {
        '9'
    }
}

/// A number written in decimal, without leading zeros.
pub open spec fn decimal_text(number: nat) -> Seq<char>
    decreases number,
{
    if number < 10 {
        seq![digit_char(number)]
    } else {
        decimal_text(number / 10).push(digit_char(number % 10))
    }
}

impl VerifyError {
    /// The name of the kind of error.
    pub open spec fn name(self) -> Seq<char> {
        match self {
            VerifyError::EncodingError => "EncodingError"@,
            VerifyError::MalformedProof => "MalformedProof"@,
            VerifyError::NoAddressProvided => "NoAddressProvided"@,
            VerifyError::InvalidAddress(_) => "InvalidAddress"@,
            VerifyError::ChainQueryError => "ChainQueryError"@,
            VerifyError::MessageMismatch => "MessageMismatch"@,
            VerifyError::NonSpendableInput(_) => "NonSpendableInput"@,
            VerifyError::InvalidSignature(_) => "InvalidSignature"@,
        }
    }

    /// The position that the error carries, if its kind has one.
    pub open spec fn position(self) -> Option<usize> {
        match self {
            VerifyError::InvalidAddress(index) => Some(index),
            VerifyError::NonSpendableInput(index) => Some(index),
            VerifyError::InvalidSignature(index) => Some(index),
            _ => None,
        }
    }

    /// The error as a text: its name, followed by its position in round
    /// brackets where it has one, as in `NonSpendableInput(1)`.
    pub open spec fn rendering(self) -> Seq<char> {
        match self.position() {
            Some(index) => self.name() + seq!['('] + decimal_text(index as nat) + seq![')'],
            None => self.name(),
        }
    }

    /// The position that the error carries, if its kind has one.
    pub fn index(&self) -> (index: Option<usize>)
        ensures
            index == self.position(),
    {
        match self {
            VerifyError::InvalidAddress(index) => Some(*index),
            VerifyError::NonSpendableInput(index) => Some(*index),
            VerifyError::InvalidSignature(index) => Some(*index),
            _ => None,
        }
    }

    /// Writes the error as a text.
    pub fn text(&self) -> (text: String)
        ensures
            text@ == self.rendering(),
    {
        let name = match self {
            VerifyError::EncodingError => "EncodingError",
            VerifyError::MalformedProof => "MalformedProof",
            VerifyError::NoAddressProvided => "NoAddressProvided",
            VerifyError::InvalidAddress(_) => "InvalidAddress",
            VerifyError::ChainQueryError => "ChainQueryError",
            VerifyError::MessageMismatch => "MessageMismatch",
            VerifyError::NonSpendableInput(_) => "NonSpendableInput",
            VerifyError::InvalidSignature(_) => "InvalidSignature",
        };
        let mut text = String::from_str(name);
        match self.index() {
            Some(index) => {
                proof {
                    reveal_strlit("(");
                    reveal_strlit(")");
                }
                text.append("(");
                assert("("@ =~= seq!['(']);
                write_decimal(&mut text, index);
                text.append(")");
                assert(")"@ =~= seq![')']);
                assert(text@ =~= self.rendering());
            },
            None => {},
        }
        text
    }
}

/// The text of one digit.
fn digit_text(digit: usize) -> (text: &'static str)
    requires
        digit < 10,
    ensures
        text@ == seq![digit_char(digit as nat)],
{
    proof {
        reveal_strlit("0");
        reveal_strlit("1");
        reveal_strlit("2");
        reveal_strlit("3");
        reveal_strlit("4");
        reveal_strlit("5");
        reveal_strlit("6");
        reveal_strlit("7");
        reveal_strlit("8");
        reveal_strlit("9");
    }
    let text = if digit == 0 {
        "0"
    } else if digit == 1 {
        "1"
    } else if digit == 2 {
        "2"
    } else if digit == 3 {
        "3"
    } else if digit == 4 {
        "4"
    } else if digit == 5 {
        "5"
    } else if digit == 6 {
        "6"
    } else if digit == 7 {
        "7"
    } else if digit == 8 {
        "8"
    } else {
        "9"
    };
    assert(text@ =~= seq![digit_char(digit as nat)]);
    text
}

/// Appends a number in decimal to a text.
fn write_decimal(text: &mut String, number: usize)
    ensures
        final(text)@ == old(text)@ + decimal_text(number as nat),
    decreases number,
{
    if number >= 10 {
        write_decimal(text, number / 10);
    }
    text.append(digit_text(number % 10));
    assert(text@ =~= old(text)@ + decimal_text(number as nat));
}

/// The outcome of one request.
#[derive(Clone, Copy, Debug, PartialEq, Eq, Structural)]
pub enum VerificationResult {
    /// The proof holds for this amount.
    Spendable(u64),
    /// The proof was turned down.
    Failure(VerifyError),
}

impl VerificationResult {
    /// The result that stands for the outcome of a component.
    pub open spec fn of(outcome: Result<u64, VerifyError>) -> VerificationResult {
        match outcome {
            Ok(total) => VerificationResult::Spendable(total),
            Err(error) => VerificationResult::Failure(error),
        }
    }

    /// Wraps the outcome of a component.
    pub fn from_outcome(outcome: Result<u64, VerifyError>) -> (result: VerificationResult)
        ensures
            result == VerificationResult::of(outcome),
    {
        match outcome {
            Ok(total) => VerificationResult::Spendable(total),
            Err(error) => VerificationResult::Failure(error),
        }
    }

    /// Whether the proof was accepted.
    pub fn is_spendable(&self) -> (yes: bool)
        ensures
            yes == (*self is Spendable),
    {
        match self {
            VerificationResult::Spendable(_) => true,
            VerificationResult::Failure(_) => false,
        }
    }
}

} // verus!
