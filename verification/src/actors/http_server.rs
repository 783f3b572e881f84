//! The query service: the most recent indicators, by a count given as text.

use crate::actors::data_holder::{recent_of, DataHolder};
use crate::messages::Indicators;
use vstd::prelude::*;
use vstd::string::StringSliceAdditionalSpecFns;

verus! {

/// `b` is an ASCII decimal digit.
pub open spec fn is_digit(b: u8) -> bool {
    0x30 <= b <= 0x39
}

/// Every byte of `digits` is a decimal digit.
pub open spec fn all_digits(digits: Seq<u8>) -> bool {
    forall|i: int| 0 <= i < digits.len() ==> is_digit(#[trigger] digits[i])
}

/// The number that a string of decimal digits writes.
pub open spec fn decimal_value(digits: Seq<u8>) -> nat
    decreases digits.len(),
{
    if digits.len() == 0 {
        0
    } else {
        10 * decimal_value(digits.drop_last()) + (digits.last() - 0x30) as nat
    }
}

/// The text without the one plus sign that may lead it.
pub open spec fn unsigned_part(text: Seq<u8>) -> Seq<u8> {
    if text.len() > 0 && text[0] == 0x2b {
        text.skip(1)
    } else {
        text
    }
}

/// The count that a text asks for: the number it writes, where it is made
/// of decimal digits, at least one, after at most one leading plus sign, and
/// that number fits the machine's word. Any other text asks for nothing.
pub open spec fn requested_count(text: Seq<u8>) -> nat {
    let digits = unsigned_part(text);
    if digits.len() > 0 && all_digits(digits) && decimal_value(digits) <= usize::MAX {
        decimal_value(digits)
    } else {
        0
    }
}

/// A number is at least the number that any prefix of its digits writes.
pub proof fn lemma_decimal_value_prefix(digits: Seq<u8>, n: int)
    requires
        0 <= n <= digits.len(),
    ensures
        decimal_value(digits.take(n)) <= decimal_value(digits),
    decreases digits.len() - n,
{
    if n == digits.len() {
        assert(digits.take(n) =~= digits);
    } else {
        lemma_decimal_value_prefix(digits.drop_last(), n);
        assert(digits.drop_last().take(n) =~= digits.take(n));
    }
}

/// Reads the count that `text` asks for.
pub fn parse_count(text: &str) -> (r: usize)
    ensures
        r == requested_count(text.spec_bytes()),
{
    let bytes: &[u8] = text.as_bytes();
    let len: usize = bytes.len();
    let start: usize = if len > 0 && bytes[0] == 0x2b {
        1
    } else {
        0
    };
    let ghost digits = unsigned_part(bytes@);
    assert(digits =~= bytes@.skip(start as int));
    if start == len {
        return 0;
    }
    let mut value: usize = 0;
    let mut i: usize = start;
    while i < len
        invariant
            len == bytes@.len(),
            start <= i <= len,
            bytes@ == text.spec_bytes(),
            digits == unsigned_part(bytes@),
            digits.len() == len - start,
            all_digits(digits.take(i - start)),
            value == decimal_value(digits.take(i - start)),
        decreases len - i,
    {
        let b: u8 = bytes[i];
        assert(b == digits[i - start]);
        if b < 0x30 || b > 0x39 {
            assert(!is_digit(digits[i - start]));
            return 0;
        }
        let d: usize = (b - 0x30) as usize;
        proof {
            assert(digits.take(i - start + 1).drop_last() =~= digits.take(i - start));
            assert(digits.take(i - start + 1).last() == b);
            lemma_decimal_value_prefix(digits, i - start + 1);
            assert(decimal_value(digits.take(i - start + 1)) == 10 * value + d);
            assert(all_digits(digits.take(i - start + 1))) by {
                assert forall|j: int| 0 <= j < i - start + 1 implies is_digit(
                    #[trigger] digits.take(i - start + 1)[j],
                ) by {
                    if j < i - start {
                        assert(digits.take(i - start + 1)[j] == digits.take(i - start)[j]);
                    }
                }
            }
        }
        if value > (usize::MAX - d) / 10 {
            return 0;
        }
        value = value * 10 + d;
        i += 1;
    }
    assert(digits.take(len - start) =~= digits);
    value
}

/// The answer to a query for the count that `n` writes: as many of the
/// newest indicators, newest first. A text that writes no count is answered
/// with none.
pub fn get_indicators(state: &DataHolder, n: &str) -> (r: Vec<Indicators>)
    ensures
        r@ == recent_of(state@, requested_count(n.spec_bytes())),
{
    state.recent(parse_count(n))
}

/// The query service and the store that it answers from.
pub struct HttpServer {
    pub data_holder: DataHolder,
}

} // verus!
