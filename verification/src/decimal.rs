//! Decimal text of unsigned numbers: how a number is written and read back.

use vstd::prelude::*;
use vstd::string::*;

verus! {

/// Whether `b` is an ASCII decimal digit.
pub open spec fn is_decimal_digit(b: u8) -> bool {
    0x30 <= b <= 0x39
}

/// The decimal text of `n`: its digits, most significant first, without
/// leading zeros; zero is written `0`.
pub open spec fn decimal_bytes(n: nat) -> Seq<u8>
    decreases n,
{
    if n < 10 {
        seq![(0x30 + n) as u8]
    } else {
        decimal_bytes(n / 10).push((0x30 + n % 10) as u8)
    }
}

/// The number written by the decimal digits of `s`, most significant digit first.
pub open spec fn decimal_number(s: Seq<u8>) -> nat
    decreases s.len(),
{
    if s.len() == 0 {
        0
    } else {
        10 * decimal_number(s.drop_last()) + (s.last() - 0x30) as nat
    }
}

/// Whether `s` is the decimal text of some number: one or more decimal digits,
/// the first of them zero only where it is the only one.
pub open spec fn is_decimal(s: Seq<u8>) -> bool {
    &&& s.len() > 0
    &&& forall|i: int| 0 <= i < s.len() ==> is_decimal_digit(#[trigger] s[i])
    &&& s.len() > 1 ==> s[0] != 0x30
}

/// What reading `s` as decimal text gives: the number, where `s` is decimal
/// text of a number that fits in 128 bits, and nothing otherwise.
pub open spec fn decimal_field_value(s: Seq<u8>) -> Option<u128> {
    if is_decimal(s) && decimal_number(s) <= u128::MAX {
        Some(decimal_number(s) as u128)
    } else {
        None
    }
}

/// The decimal text of a number is decimal text, and reads back as that number.
pub proof fn lemma_decimal_bytes_read_back(n: nat)
    ensures
        is_decimal(decimal_bytes(n)),
        decimal_number(decimal_bytes(n)) == n,
        n > 0 ==> decimal_bytes(n)[0] != 0x30,
    decreases n,
{
    if n < 10 {
        let s = decimal_bytes(n);
        assert(s.drop_last().len() == 0);
        assert(decimal_number(s.drop_last()) == 0);
    } else {
        let head = decimal_bytes(n / 10);
        let s = decimal_bytes(n);
        lemma_decimal_bytes_read_back(n / 10);
        assert(s.drop_last() == head);
        assert(s[0] == head[0]);
        assert forall|i: int| 0 <= i < s.len() implies is_decimal_digit(#[trigger] s[i]) by {
            if i < head.len() {
                assert(s[i] == head[i]);
            }
        }
    }
}

/// Decimal text is the decimal text of the number it writes: no other text
/// reads back as that number.
pub proof fn lemma_decimal_text_unique(s: Seq<u8>)
    requires
        is_decimal(s),
    ensures
        decimal_bytes(decimal_number(s)) == s,
    decreases s.len(),
{
    let n = decimal_number(s);
    let last = (s.last() - 0x30) as nat;
    if s.len() == 1 {
        assert(s.drop_last().len() == 0);
        assert(decimal_number(s.drop_last()) == 0);
        assert(decimal_bytes(n) =~= s);
    } else {
        let head = s.drop_last();
        assert(head[0] == s[0]);
        assert forall|i: int| 0 <= i < head.len() implies is_decimal_digit(#[trigger] head[i]) by {
            assert(head[i] == s[i]);
        }
        lemma_decimal_leading_digit(head);
        lemma_decimal_text_unique(head);
        assert(n / 10 == decimal_number(head));
        assert(n % 10 == last);
        assert(decimal_bytes(n) =~= s);
    }
}

/// Digits that do not start with zero write a number above zero.
pub proof fn lemma_decimal_leading_digit(s: Seq<u8>)
    requires
        s.len() > 0,
        forall|i: int| 0 <= i < s.len() ==> is_decimal_digit(#[trigger] s[i]),
        s[0] != 0x30,
    ensures
        decimal_number(s) > 0,
    decreases s.len(),
{
    if s.len() == 1 {
        assert(s.drop_last().len() == 0);
        assert(decimal_number(s.drop_last()) == 0);
    } else {
        let head = s.drop_last();
        assert(head[0] == s[0]);
        assert forall|i: int| 0 <= i < head.len() implies is_decimal_digit(#[trigger] head[i]) by {
            assert(head[i] == s[i]);
        }
        lemma_decimal_leading_digit(head);
    }
}

/// A digit never lowers the number read so far.
pub proof fn lemma_decimal_number_prefix(s: Seq<u8>, n: int)
    requires
        0 <= n <= s.len(),
        forall|i: int| 0 <= i < s.len() ==> is_decimal_digit(#[trigger] s[i]),
    ensures
        decimal_number(s.take(n)) <= decimal_number(s),
    decreases s.len(),
{
    if n == s.len() {
        assert(s.take(n) == s);
    } else {
        let head = s.drop_last();
        assert(head.take(n) == s.take(n));
        assert forall|i: int| 0 <= i < head.len() implies is_decimal_digit(#[trigger] head[i]) by {
            assert(head[i] == s[i]);
        }
        lemma_decimal_number_prefix(head, n);
    }
}

/// Appends the decimal text of `n` to `out`.
pub fn push_decimal(out: &mut Vec<u8>, n: u128)
    ensures
        final(out)@ == old(out)@ + decimal_bytes(n as nat),
    decreases n,
{
    if n >= 10 {
        push_decimal(out, n / 10);
    }
    let digit: u8 = (n % 10) as u8;
    out.push(0x30 + digit);
    assert(final(out)@ =~= old(out)@ + decimal_bytes(n as nat));
}

/// Reads `digits` as decimal text.
///
/// Only the text that [`push_decimal`] writes for a number is read: digits
/// alone, no sign, no leading zero before another digit. A number that does
/// not fit in 128 bits is not read.
pub fn parse_decimal(digits: &[u8]) -> (value: Option<u128>)
    ensures
        value == decimal_field_value(digits@),
{
    if digits.len() == 0 {
        return None;
    }
    if digits.len() > 1 && digits[0] == 0x30 {
        return None;
    }
    let mut acc: u128 = 0;
    let mut i: usize = 0;
    while i < digits.len()
        invariant
            0 <= i <= digits.len(),
            forall|j: int| 0 <= j < i ==> is_decimal_digit(#[trigger] digits@[j]),
            acc == decimal_number(digits@.take(i as int)),
        decreases digits.len() - i,
    {
        let b: u8 = digits[i];
        if b < 0x30 || b > 0x39 {
            return None;
        }
        let d: u128 = (b - 0x30) as u128;
        proof {
            assert(digits@.take(i + 1).drop_last() == digits@.take(i as int));
        }
        if acc > (u128::MAX - d) / 10 {
            proof {
                if is_decimal(digits@) {
                    lemma_decimal_number_prefix(digits@, i + 1);
                }
            }
            return None;
        }
        acc = acc * 10 + d;
        i += 1;
    }
    assert(digits@.take(i as int) == digits@);
    Some(acc)
}

/// The decimal text of `n` as characters.
pub open spec fn decimal_text(n: nat) -> Seq<char> {
    decimal_bytes(n).map_values(|b: u8| b as char)
}

/// The text of one decimal digit.
fn digit_text(digit: u8) -> (text: &'static str)
    requires
        digit < 10,
    ensures
        text@ == seq![(0x30 + digit) as u8 as char],
{
    proof {
        reveal_strlit("0");
        reveal_strlit("1");
        reveal_strlit("2");
        reveal_strlit("3");
        reveal_strlit("4");
        reveal_strlit("5");
        reveal_strlit("6");
        reveal_strlit("7");
        reveal_strlit("8");
        reveal_strlit("9");
    }
    let text = if digit == 0 {
        "0"
    } else if digit == 1 {
        "1"
    } else if digit == 2 {
        "2"
    } else if digit == 3 {
        "3"
    } else if digit == 4 {
        "4"
    } else if digit == 5 {
        "5"
    } else if digit == 6 {
        "6"
    } else if digit == 7 {
        "7"
    } else if digit == 8 {
        "8"
    } else {
        "9"
    };
    assert(text@ =~= seq![(0x30 + digit) as u8 as char]);
    text
}

/// Appends the decimal text of `n` to `out`.
pub fn append_decimal(out: &mut String, n: u128)
    ensures
        final(out)@ == old(out)@ + decimal_text(n as nat),
    decreases n,
{
    if n >= 10 {
        append_decimal(out, n / 10);
    }
    let digit: u8 = (n % 10) as u8;
    out.append(digit_text(digit));
    assert(final(out)@ =~= old(out)@ + decimal_text(n as nat));
}

} // verus!
