//! Reading unsigned decimal numbers from text, as the values of a settings
//! file are written.
//!
//! A number is an optional `+` followed by one or more of the digits `0` to
//! `9`, and nothing else: no sign without digits, no blank, no separator. A
//! number above the largest value of the wanted type is not read.

use vstd::prelude::*;
use vstd::string::*;

verus! {

/// Whether `c` is one of the digits `0` to `9`.
pub open spec fn is_digit(c: char) -> bool {
    '0' <= c <= '9'
}

/// The number that the digit `c` stands for.
pub open spec fn digit_value(c: char) -> int {
    c as int - '0' as int
}

/// Whether `text` holds digits only.
pub open spec fn all_digits(text: Seq<char>) -> bool {
    forall|i: int| 0 <= i < text.len() ==> is_digit(#[trigger] text[i])
}

/// The number that a run of digits stands for, the first digit counting
/// most.
pub open spec fn digits_value(digits: Seq<char>) -> int
    decreases digits.len(),
{
    if digits.len() == 0 {
        0
    } else {
        10 * digits_value(digits.drop_last()) + digit_value(digits.last())
    }
}

/// `text` without a leading `+`.
pub open spec fn unsigned_body(text: Seq<char>) -> Seq<char> {
    if text.len() > 0 && text[0] == '+' {
        text.skip(1)
    } else {
        text
    }
}

/// The number written in `text`, where `text` is a number of at most `max`.
pub open spec fn decimal(text: Seq<char>, max: int) -> Option<int> {
    let body = unsigned_body(text);
    if body.len() > 0 && all_digits(body) && digits_value(body) <= max {
        Some(digits_value(body))
    } else {
        None
    }
}

/// A run of digits stands for a number that is at least the number of each of
/// its leading parts, and never for a negative one.
pub proof fn lemma_digits_value_grows(digits: Seq<char>, k: int)
    requires
        all_digits(digits),
        0 <= k <= digits.len(),
    ensures
        0 <= digits_value(digits.take(k)) <= digits_value(digits),
    decreases digits.len() - k,
{
    if k == digits.len() {
        assert(digits.take(k) =~= digits);
        lemma_digits_value_nonnegative(digits);
    } else {
        lemma_digits_value_grows(digits, k + 1);
        let longer = digits.take(k + 1);
        assert(longer.drop_last() =~= digits.take(k));
        assert(is_digit(digits[k]));
        assert(longer.last() == digits[k]);
        lemma_digits_value_nonnegative(digits.take(k));
    }
}

/// A run of digits never stands for a negative number.
pub proof fn lemma_digits_value_nonnegative(digits: Seq<char>)
    requires
        all_digits(digits),
    ensures
        0 <= digits_value(digits),
    decreases digits.len(),
{
    if digits.len() > 0 {
        assert(is_digit(digits.last()));
        lemma_digits_value_nonnegative(digits.drop_last());
    }
}

/// Reads the number written in `text`, where it is a number of at most `max`.
pub fn parse_unsigned(text: &str, max: u64) -> (value: Option<u64>)
    ensures
        value.is_some() <==> decimal(text@, max as int).is_some(),
        value.is_some() ==> value.unwrap() as int == decimal(text@, max as int).unwrap(),
{
    let ghost body = unsigned_body(text@);
    if !text.is_ascii() {
        proof {
            let k = choose|k: int| 0 <= k < text@.len() && !('\0' <= #[trigger] text@[k] <= '\u{7f}');
            if body.len() > 0 && all_digits(body) {
                if text@[0] == '+' {
                    assert(k > 0);
                    assert(body[k - 1] == text@[k]);
                    assert(is_digit(body[k - 1]));
                } else {
                    assert(is_digit(body[k]));
                }
            }
        }
        return None;
    }
    let bytes = text.as_bytes();
    let n = bytes.len();
    proof {
        is_ascii_spec_bytes(text);
        assert(n == text@.len());
        assert forall|j: int| 0 <= j < n implies bytes@[j] as int == #[trigger] text@[j] as int by {
            assert('\0' <= text@[j] <= '\u{7f}');
        }
    }
    let mut i: usize = 0;
    if n > 0 && bytes[0] == 43u8 {
        i = 1;
    }
    let start = i;
    assert(body =~= text@.skip(start as int)) by {
        if n > 0 {
            assert(bytes@[0] as int == text@[0] as int);
        }
    }
    if i == n {
        return None;
    }
    let mut acc: u64 = 0;
    while i < n
        invariant
            n == text@.len(),
            n == bytes@.len(),
            forall|j: int| 0 <= j < n ==> bytes@[j] as int == #[trigger] text@[j] as int,
            start <= i <= n,
            body == text@.skip(start as int),
            body == unsigned_body(text@),
            all_digits(body.take(i - start)),
            acc as int == digits_value(body.take(i - start)),
            acc <= max,
        decreases n - i,
    {
        let b = bytes[i];
        let ghost c = text@[i as int];
        let ghost longer = body.take(i - start + 1);
        proof {
            assert(body[i - start] == c);
            assert(c as int == b as int);
            assert(longer.drop_last() =~= body.take(i - start));
            assert(longer.last() == c);
        }
        if b < 48u8 || b > 57u8 {
            assert(!is_digit(body[i - start]));
            return None;
        }
        let d: u64 = (b - 48u8) as u64;
        proof {
            assert(is_digit(c));
            assert(d as int == digit_value(c));
            assert forall|j: int| 0 <= j < longer.len() implies is_digit(#[trigger] longer[j]) by {
                if j < longer.len() - 1 {
                    assert(longer[j] == body.take(i - start)[j]);
                }
            }
        }
        if d > max || acc > (max - d) / 10 {
            proof {
                assert(digits_value(longer) > max);
                if all_digits(body) {
                    lemma_digits_value_grows(body, i - start + 1);
                }
            }
            return None;
        }
        acc = acc * 10 + d;
        i += 1;
    }
    proof {
        assert(body.take(i - start) =~= body);
    }
    Some(acc)
}

/// Reads a number that fits in 32 bits.
pub fn parse_u32(text: &str) -> (value: Option<u32>)
    ensures
        value.is_some() <==> decimal(text@, u32::MAX as int).is_some(),
        value.is_some() ==> value.unwrap() as int == decimal(text@, u32::MAX as int).unwrap(),
{
    match parse_unsigned(text, 0xffff_ffffu64) {
        Some(v) => Some(v as u32),
        None => None,
    }
}

/// Reads a number that fits in 8 bits.
pub fn parse_u8(text: &str) -> (value: Option<u8>)
    ensures
        value.is_some() <==> decimal(text@, u8::MAX as int).is_some(),
        value.is_some() ==> value.unwrap() as int == decimal(text@, u8::MAX as int).unwrap(),
{
    match parse_unsigned(text, 0xffu64) {
        Some(v) => Some(v as u8),
        None => None,
    }
}

} // verus!
