//! Decoding of the receiver's acknowledgment.
//!
//! A notify call returns bytes; a well-formed reply is a decimal amount in
//! ASCII digits between two quotation marks (the conventional JSON encoding
//! of a 128-bit amount). Anything else — wrong framing, a non-digit, or a
//! value beyond the 128-bit range — is malformed, and the resolution step
//! fails closed, treating it as "nothing was used".

use vstd::prelude::*;

verus! {

/// The ASCII quotation mark framing a well-formed reply.
pub const QUOTE: u8 = 34;

/// Largest value that can take one more digit without leaving the range.
pub const MAX_BEFORE_DIGIT: u128 = u128::MAX / 10;

/// Largest digit that may follow `MAX_BEFORE_DIGIT` within the range.
pub const MAX_FINAL_DIGIT: u128 = u128::MAX % 10;

/// An ASCII decimal digit.
pub open spec fn is_digit(b: u8) -> bool {
    48 <= b <= 57
}

/// Every byte is an ASCII decimal digit.
pub open spec fn all_digits(s: Seq<u8>) -> bool {
    forall|i: int| 0 <= i < s.len() ==> is_digit(#[trigger] s[i])
}

/// The number denoted by a string of ASCII digits, most significant first.
pub open spec fn digits_value(s: Seq<u8>) -> int
    decreases s.len(),
{
    if s.len() == 0 {
        0
    } else {
        digits_value(s.drop_last()) * 10 + (s.last() - 48)
    }
}

/// The amount denoted by a reply: the bytes must be at least one digit
/// between two quotation marks, and the digits must denote a value within
/// the 128-bit range.
pub open spec fn decoded_amount(s: Seq<u8>) -> Option<u128> {
    let digits = s.subrange(1, s.len() - 1);
    if s.len() >= 3 && s[0] == QUOTE && s.last() == QUOTE && all_digits(digits) && digits_value(
        digits,
    ) <= u128::MAX {
        Some(digits_value(digits) as u128)
    } else {
        None
    }
}

proof fn lemma_digits_value_nonneg(s: Seq<u8>)
    requires
        all_digits(s),
    ensures
        digits_value(s) >= 0,
    decreases s.len(),
{
    if s.len() > 0 {
        assert forall|i: int| 0 <= i < s.drop_last().len() implies is_digit(
            #[trigger] s.drop_last()[i],
        ) by {
            assert(s.drop_last()[i] == s[i]);
        }
        lemma_digits_value_nonneg(s.drop_last());
    }
}

/// Appending digits never lowers the denoted value, so a prefix that already
/// exceeds the range dooms the whole string.
proof fn lemma_digits_value_prefix(s: Seq<u8>, n: int)
    requires
        all_digits(s),
        0 <= n <= s.len(),
    ensures
        digits_value(s.take(n)) <= digits_value(s),
    decreases s.len() - n,
{
    if n == s.len() {
        assert(s.take(n) =~= s);
    } else {
        lemma_digits_value_prefix(s, n + 1);
        let t = s.take(n + 1);
        assert(t.drop_last() =~= s.take(n));
        assert(is_digit(s[n]));
        assert forall|i: int| 0 <= i < s.take(n).len() implies is_digit(
            #[trigger] s.take(n)[i],
        ) by {
            assert(s.take(n)[i] == s[i]);
        }
        lemma_digits_value_nonneg(s.take(n));
        assert(digits_value(t) == digits_value(s.take(n)) * 10 + (s[n] - 48));
        assert(digits_value(s.take(n)) * 10 >= digits_value(s.take(n)));
    }
}

/// Decodes a reply; `None` exactly on a malformed reply.
pub fn decode_amount(bytes: &Vec<u8>) -> (r: Option<u128>)
    ensures
        r == decoded_amount(bytes@),
{
    let n = bytes.len();
    if n < 3 {
        return None;
    }
    if bytes[0] != QUOTE || bytes[n - 1] != QUOTE {
        return None;
    }
    let ghost digits = bytes@.subrange(1, n - 1);
    let mut acc: u128 = 0;
    let mut i: usize = 1;
    while i < n - 1
        invariant
            1 <= i <= n - 1,
            3 <= n == bytes@.len(),
            digits == bytes@.subrange(1, n - 1),
            bytes@[0] == QUOTE,
            bytes@[n - 1] == QUOTE,
            forall|j: int| 1 <= j < i ==> is_digit(#[trigger] bytes@[j]),
            acc == digits_value(bytes@.subrange(1, i as int)),
        decreases n - i,
    {
        let b = bytes[i];
        if b < 48 || b > 57 {
            proof {
                assert(digits[i - 1] == bytes@[i as int]);
            }
            return None;
        }
        let d = (b - 48) as u128;
        proof {
            assert(bytes@.subrange(1, i + 1).drop_last() =~= bytes@.subrange(1, i as int));
            assert(bytes@.subrange(1, i + 1).last() == bytes@[i as int]);
        }
        if acc > MAX_BEFORE_DIGIT || (acc == MAX_BEFORE_DIGIT && d > MAX_FINAL_DIGIT) {
            proof {
                // the prefix up to and including this digit already exceeds
                // the range, so the whole digit string does
                assert(u128::MAX / 10 * 10 + u128::MAX % 10 == u128::MAX);
                assert(digits_value(bytes@.subrange(1, i + 1)) > u128::MAX);
                if all_digits(digits) {
                    assert(digits.take(i as int) =~= bytes@.subrange(1, i + 1));
                    lemma_digits_value_prefix(digits, i as int);
                }
            }
            return None;
        }
        proof {
            assert(u128::MAX / 10 * 10 + u128::MAX % 10 == u128::MAX);
        }
        acc = acc * 10 + d;
        i = i + 1;
    }
    proof {
        assert(bytes@.subrange(1, i as int) =~= digits);
        assert(all_digits(digits)) by {
            assert forall|j: int| 0 <= j < digits.len() implies is_digit(#[trigger] digits[j]) by {
                assert(digits[j] == bytes@[j + 1]);
            }
        }
    }
    Some(acc)
}

} // verus!
