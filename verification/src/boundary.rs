//! What is decided where the library meets its callers: the text that is
//! handed over when a snapshot could not be encoded, and the number of
//! processes that is asked for on a command line.

use vstd::prelude::*;
use vstd::string::StringSliceAdditionalSpecFns;

verus! {

/// The number of processes in a snapshot where the caller names none.
pub const DEFAULT_LIMIT: usize = 5;

/// The byte of the plus sign.
pub const PLUS: u8 = 43;

/// The byte of the digit 0.
pub const DIGIT_ZERO: u8 = 48;

/// The byte of the digit 9.
pub const DIGIT_NINE: u8 = 57;

/// Whether every byte is a decimal digit.
pub open spec fn all_digits(bytes: Seq<u8>) -> bool {
    forall|i: int| 0 <= i < bytes.len() ==> DIGIT_ZERO <= #[trigger] bytes[i] <= DIGIT_NINE
}

/// The number that a string of decimal digits denotes.
pub open spec fn decimal_value(digits: Seq<u8>) -> nat
    decreases digits.len(),
{
    if digits.len() == 0 {
        0
    } else {
        decimal_value(digits.drop_last()) * 10 + (digits.last() - DIGIT_ZERO) as nat
    }
}

/// The text without a plus sign at its front.
pub open spec fn unsigned_part(text: Seq<u8>) -> Seq<u8> {
    if text.len() > 0 && text[0] == PLUS {
        text.drop_first()
    } else {
        text
    }
}

/// The count that a text denotes: the text is one or more decimal digits,
/// with or without a plus sign before them and with nothing else before,
/// between or after them, and the number fits the machine's word.
pub open spec fn count_of(text: Seq<u8>) -> Option<usize> {
    let digits = unsigned_part(text);
    if digits.len() > 0 && all_digits(digits) && decimal_value(digits) <= usize::MAX {
        Some(decimal_value(digits) as usize)
    } else {
        None
    }
}

/// The limit that an argument asks for: the count that it denotes, and the
/// default where it denotes none or is missing.
pub open spec fn limit_of(argument: Option<Seq<u8>>) -> usize {
    match argument {
        Some(text) => match count_of(text) {
            Some(count) => count,
            None => DEFAULT_LIMIT,
        },
        None => DEFAULT_LIMIT,
    }
}

/// Reads a count from a text.
pub fn parse_count(text: &str) -> (count: Option<usize>)
    ensures
        count == count_of(text.spec_bytes()),
{
    let bytes = text.as_bytes();
    let n = bytes.len();
    let start: usize = if n > 0 && bytes[0] == PLUS {
        1
    } else {
        0
    };
    let ghost digits = unsigned_part(bytes@);
    assert(digits == bytes@.subrange(start as int, n as int));
    let mut value: usize = 0;
    let mut i: usize = start;
    while i < n
        invariant
            start <= i <= n,
            n == bytes@.len(),
            bytes@ == text.spec_bytes(),
            digits == unsigned_part(bytes@),
            digits == bytes@.subrange(start as int, n as int),
            all_digits(digits.take(i - start)),
            value == decimal_value(digits.take(i - start)),
        decreases n - i,
    {
        let byte = bytes[i];
        assert(byte == digits[i - start]);
        if byte < DIGIT_ZERO || byte > DIGIT_NINE {
            return None;
        }
        proof {
            assert(digits.take(i + 1 - start).drop_last() == digits.take(i - start));
            lemma_decimal_value_grows(digits, i + 1 - start);
        }
        let digit = (byte - DIGIT_ZERO) as usize;
        let next = match value.checked_mul(10) {
            Some(tenfold) => tenfold.checked_add(digit),
            None => None,
        };
        match next {
            Some(v) => {
                value = v;
            },
            None => {
                return None;
            },
        }
        i += 1;
    }
    proof {
        assert(digits.take(n - start) == digits);
    }
    if start == n {
        None
    } else {
        Some(value)
    }
}

/// Tells the limit that an argument of the command line asks for. A text
/// that denotes no count is passed over in silence.
pub fn limit_from_argument(argument: Option<&str>) -> (limit: usize)
    ensures
        limit == limit_of(
            match argument {
                Some(text) => Some(text.spec_bytes()),
                None => None,
            },
        ),
        argument is None ==> limit == DEFAULT_LIMIT,
{
    match argument {
        Some(text) => match parse_count(text) {
            Some(count) => count,
            None => DEFAULT_LIMIT,
        },
        None => DEFAULT_LIMIT,
    }
}

/// Chooses the text that is handed to a caller across the boundary: the
/// encoded snapshot, and an empty object where there is none. A failure to
/// encode never reaches the caller.
pub fn payload_or_empty(encoded: Option<String>) -> (payload: String)
    ensures
        encoded matches Some(text) ==> payload == text,
        encoded is None ==> payload@ == seq!['{', '}'],
{
    match encoded {
        Some(text) => text,
        None => {
            proof {
                reveal_strlit("{}");
            }
            "{}".to_owned()
        },
    }
}

/// A longer string of digits denotes no smaller number than its front.
pub proof fn lemma_decimal_value_grows(digits: Seq<u8>, n: int)
    requires
        0 <= n <= digits.len(),
    ensures
        decimal_value(digits.take(n)) <= decimal_value(digits),
    decreases digits.len(),
{
    if n == digits.len() {
        assert(digits.take(n) == digits);
    } else {
        assert(digits.drop_last().take(n) == digits.take(n));
        lemma_decimal_value_grows(digits.drop_last(), n);
    }
}

/// A text with a byte that is neither a digit nor a plus sign at the front
/// denotes no count, so the limit that it asks for is the default.
pub proof fn lemma_not_a_count(text: Seq<u8>, i: int)
    requires
        0 <= i < text.len(),
        !(DIGIT_ZERO <= text[i] <= DIGIT_NINE),
        i > 0 || text[i] != PLUS,
    ensures
        count_of(text) is None,
        limit_of(Some(text)) == limit_of(None),
{
    let digits = unsigned_part(text);
    if text[0] == PLUS {
        assert(digits[i - 1] == text[i]);
    } else {
        assert(digits[i] == text[i]);
    }
}

} // verus!
