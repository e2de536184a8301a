//! Hexadecimal fields: what counts as one, what number it writes, and how
//! a field of any length is told from zero.

use vstd::prelude::*;

verus! {

/// Whether `b` is an ASCII hexadecimal digit: `0`-`9`, `a`-`f` or `A`-`F`.
pub open spec fn is_hex_digit(b: u8) -> bool {
    ||| 0x30 <= b <= 0x39
    ||| 0x61 <= b <= 0x66
    ||| 0x41 <= b <= 0x46
}

/// The number that the hexadecimal digit `b` stands for.
pub open spec fn hex_digit_value(b: u8) -> nat
    recommends
        is_hex_digit(b),
{
    if b <= 0x39 {
        (b - 0x30) as nat
    } else if b >= 0x61 {
        (b - 0x57) as nat
    } else {
        (b - 0x37) as nat
    }
}

/// A hexadecimal run: one or more hexadecimal digits and nothing else.
pub open spec fn is_hex_run(s: Seq<u8>) -> bool {
    &&& s.len() > 0
    &&& forall|i: int| 0 <= i < s.len() ==> is_hex_digit(#[trigger] s[i])
}

/// The number written by the digits of `s`, most significant digit first.
pub open spec fn hex_number(s: Seq<u8>) -> nat
    decreases s.len(),
{
    if s.len() == 0 {
        0
    } else {
        16 * hex_number(s.drop_last()) + hex_digit_value(s.last())
    }
}

/// What a field says of its number: nothing where `s` is no hexadecimal
/// run, and otherwise whether the number it writes is zero. The run may be of
/// any length.
pub open spec fn hex_run_is_zero(s: Seq<u8>) -> Option<bool> {
    if is_hex_run(s) {
        Some(hex_number(s) == 0)
    } else {
        None
    }
}

/// Reading one more digit multiplies the number so far by 16 and adds the digit.
pub proof fn lemma_hex_number_step(s: Seq<u8>, n: int)
    requires
        0 <= n < s.len(),
    ensures
        hex_number(s.take(n + 1)) == 16 * hex_number(s.take(n)) + hex_digit_value(s[n]),
{
    assert(s.take(n + 1).drop_last() == s.take(n));
}

/// A run writes zero exactly where each of its digits is `0`, however long it is.
pub proof fn lemma_zero_is_all_zeros(s: Seq<u8>)
    requires
        is_hex_run(s),
    ensures
        hex_number(s) == 0 <==> forall|i: int| 0 <= i < s.len() ==> #[trigger] s[i] == 0x30,
    decreases s.len(),
{
    let head = s.drop_last();
    if head.len() == 0 {
        assert(hex_number(head) == 0);
        assert(s.last() == s[0]);
    } else {
        assert forall|i: int| 0 <= i < head.len() implies is_hex_digit(#[trigger] head[i]) by {
            assert(head[i] == s[i]);
        }
        lemma_zero_is_all_zeros(head);
        if hex_number(s) == 0 {
            assert forall|i: int| 0 <= i < s.len() implies #[trigger] s[i] == 0x30 by {
                if i < head.len() {
                    assert(head[i] == s[i]);
                }
            }
        }
        if forall|i: int| 0 <= i < s.len() ==> #[trigger] s[i] == 0x30 {
            assert forall|i: int| 0 <= i < head.len() implies #[trigger] head[i] == 0x30 by {
                assert(head[i] == s[i]);
            }
        }
    }
}

/// The value of one hexadecimal digit, or `None` for any other byte.
pub fn hex_digit(b: u8) -> (d: Option<u8>)
    ensures
        d is Some <==> is_hex_digit(b),
        d matches Some(v) ==> v == hex_digit_value(b) && v < 16,
{
    if 0x30 <= b && b <= 0x39 {
        Some(b - 0x30)
    } else if 0x61 <= b && b <= 0x66 {
        Some(b - 0x57)
    } else if 0x41 <= b && b <= 0x46 {
        Some(b - 0x37)
    } else {
        None
    }
}

/// Reads a hexadecimal field of any length and tells whether its number is zero.
///
/// The field must consist of hexadecimal digits only, at least one of them.
/// No number is built up, so no field is too long to be read.
pub fn read_hex_zero(digits: &[u8]) -> (zero: Option<bool>)
    ensures
        zero == hex_run_is_zero(digits@),
{
    if digits.len() == 0 {
        return None;
    }
    let mut zero = true;
    let mut i: usize = 0;
    while i < digits.len()
        invariant
            0 <= i <= digits.len(),
            forall|j: int| 0 <= j < i ==> is_hex_digit(#[trigger] digits@[j]),
            zero <==> hex_number(digits@.take(i as int)) == 0,
        decreases digits.len() - i,
    {
        let d: u8 = match hex_digit(digits[i]) {
            Some(d) => d,
            None => {
                return None;
            },
        };
        proof {
            lemma_hex_number_step(digits@, i as int);
        }
        if d != 0 {
            zero = false;
        }
        i += 1;
    }
    assert(digits@.take(i as int) == digits@);
    Some(zero)
}

} // verus!
