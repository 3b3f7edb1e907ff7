//! Numbers as text: decimal and hexadecimal digits.

use vstd::prelude::*;

use crate::text::chars_of;

verus! {

/// The decimal digit for a value below ten.
pub open spec fn digit(d: int) -> char {
    (48 + d) as char
}

/// A number in decimal, without leading zeros.
pub open spec fn decimal_of(n: int) -> Seq<char>
    decreases n,
{
    if n < 10 {
        seq![digit(n)]
    } else {
        decimal_of(n / 10).push(digit(n % 10))
    }
}

fn digit_char(d: u64) -> (r: char)
    requires
        d < 10,
    ensures
        r == digit(d as int),
{
    let byte: u8 = 48 + (d as u8);
    byte as char
}

/// A number in decimal, without leading zeros.
pub fn decimal(n: u64) -> (r: String)
    ensures
        r@ == decimal_of(n as int),
    decreases n,
{
    if n < 10 {
        let mut out: String = String::new();
        out.push(digit_char(n));
        assert(out@ =~= seq![digit(n as int)]);
        out
    } else {
        let mut out: String = decimal(n / 10);
        out.push(digit_char(n % 10));
        out
    }
}

/// Whether the character is an ASCII digit.
pub open spec fn is_digit(c: char) -> bool {
    48 <= c as u32 <= 57
}

/// Whether every character is an ASCII digit.
pub open spec fn all_digits(s: Seq<char>) -> bool {
    forall|i: int| 0 <= i < s.len() ==> is_digit(#[trigger] s[i])
}

/// The value of a sequence of decimal digits.
pub open spec fn value_of(s: Seq<char>) -> int
    decreases s.len(),
{
    if s.len() == 0 {
        0
    } else {
        value_of(s.drop_last()) * 10 + (s.last() as u32 - 48)
    }
}

/// The digits of a number as `u64::from_str` reads it: one leading plus sign
/// is allowed.
pub open spec fn number_digits(s: Seq<char>) -> Seq<char> {
    if s.len() > 0 && s[0] == '+' {
        s.skip(1)
    } else {
        s
    }
}

/// The number that `u64::from_str` reads, if it reads one.
pub open spec fn number_of(s: Seq<char>) -> Option<int> {
    let digits = number_digits(s);
    if digits.len() > 0 && all_digits(digits) && value_of(digits) <= u64::MAX {
        Some(value_of(digits))
    } else {
        None
    }
}

proof fn lemma_value_bound(s: Seq<char>)
    requires
        all_digits(s),
    ensures
        value_of(s) >= 0,
    decreases s.len(),
{
    if s.len() > 0 {
        assert(is_digit(s[s.len() - 1]));
        assert forall|i: int| 0 <= i < s.drop_last().len() implies is_digit(
            #[trigger] s.drop_last()[i],
        ) by {
            assert(is_digit(s[i]));
        }
        lemma_value_bound(s.drop_last());
    }
}

proof fn lemma_value_grows(s: Seq<char>, i: int)
    requires
        all_digits(s),
        0 <= i <= s.len(),
    ensures
        value_of(s.take(i)) <= value_of(s),
    decreases s.len() - i,
{
    if i == s.len() {
        assert(s.take(i) == s);
    } else {
        let t = s.drop_last();
        assert forall|j: int| 0 <= j < t.len() implies is_digit(#[trigger] t[j]) by {
            assert(is_digit(s[j]));
        }
        lemma_value_grows(t, i);
        lemma_value_bound(t);
        assert(t.take(i) == s.take(i));
        assert(is_digit(s[s.len() - 1]));
    }
}

/// `u64::from_str`: decimal digits with an optional plus sign in front.
pub fn parse_u64(s: &str) -> (r: Option<u64>)
    ensures
        r is Some <==> number_of(s@) is Some,
        r matches Some(n) ==> number_of(s@) == Some(n as int),
{
    let chars: Vec<char> = chars_of(s);
    let mut from: usize = 0;
    if chars.len() > 0 && chars[0] == '+' {
        from = 1;
    }
    let ghost digits = number_digits(s@);
    assert(digits == s@.skip(from as int));
    if from == chars.len() {
        return None;
    }
    let mut value: u64 = 0;
    let mut i: usize = from;
    while i < chars.len()
        invariant
            chars@ == s@,
            from <= i <= chars.len(),
            from < chars.len(),
            digits == number_digits(s@),
            digits == s@.skip(from as int),
            forall|j: int| 0 <= j < i - from ==> is_digit(#[trigger] digits[j]),
            value == value_of(digits.take(i - from)),
        decreases chars.len() - i,
    {
        let u: u32 = chars[i] as u32;
        assert(digits[i - from] == chars@[i as int]);
        if u < 48 || u > 57 {
            return None;
        }
        let ghost next = digits.take(i - from + 1);
        assert(next.drop_last() == digits.take(i - from));
        assert(next.last() == chars@[i as int]);
        let d: u64 = (u - 48) as u64;
        if value > (u64::MAX - d) / 10 {
            proof {
                if all_digits(digits) {
                    lemma_value_grows(digits, i - from + 1);
                }
            }
            return None;
        }
        value = value * 10 + d;
        i = i + 1;
    }
    assert(digits.take(i - from) == digits);
    Some(value)
}

proof fn lemma_decimal(n: int)
    requires
        n >= 0,
    ensures
        decimal_of(n).len() > 0,
        all_digits(decimal_of(n)),
        value_of(decimal_of(n)) == n,
    decreases n,
{
    reveal_with_fuel(value_of, 2);
    if n < 10 {
        assert(seq![digit(n)].drop_last() =~= Seq::empty());
    } else {
        lemma_decimal(n / 10);
        assert(decimal_of(n).drop_last() == decimal_of(n / 10));
    }
}

/// Reading a number back from its decimal text gives the number.
pub proof fn law_decimal_reads_back(n: int)
    requires
        0 <= n <= u64::MAX,
    ensures
        number_of(decimal_of(n)) == Some(n),
{
    lemma_decimal(n);
    assert(is_digit(decimal_of(n)[0]));
}

/// Another digit behind a number counts once, and what stands before it tenfold.
pub proof fn law_value_of_digits(s: Seq<char>, d: int)
    requires
        0 <= d < 10,
    ensures
        value_of(Seq::empty()) == 0,
        value_of(s.push((0x30 + d) as char)) == value_of(s) * 10 + d,
{
    assert(s.push(digit(d)).drop_last() =~= s);
}

/// A number is read exactly when there is at least one digit, behind at most one
/// plus sign, nothing but digits, and a value that fits; and the plus sign does
/// not matter.
pub proof fn law_number_of(digits: Seq<char>)
    requires
        digits.len() > 0 ==> digits[0] != '+',
    ensures
        number_of(digits) is Some <==> digits.len() > 0 && (forall|i: int|
            0 <= i < digits.len() ==> 0x30 <= #[trigger] digits[i] as u32 <= 0x39) && value_of(
            digits,
        ) <= u64::MAX,
        number_of(digits) matches Some(n) ==> n == value_of(digits),
        number_of(seq!['+'] + digits) == number_of(digits),
{
    let signed = seq!['+'] + digits;
    assert(signed[0] == '+');
    assert(signed.skip(1) =~= digits);
    if number_of(digits) is Some {
        assert forall|i: int| 0 <= i < digits.len() implies 0x30 <= #[trigger] digits[i] as u32
            <= 0x39 by {
            assert(is_digit(digits[i]));
        }
    }
}

/// A number is written with digits alone, and without a leading zero unless it
/// is zero.
pub proof fn law_decimal_digits(n: int, i: int)
    requires
        n >= 0,
        0 <= i < decimal_of(n).len(),
    ensures
        0x30 <= decimal_of(n)[i] as u32 <= 0x39,
        n > 0 ==> decimal_of(n)[0] != '0',
        n < 10 ==> decimal_of(n).len() == 1,
{
    lemma_decimal(n);
    assert(is_digit(decimal_of(n)[i]));
    lemma_no_leading_zero(n);
}

proof fn lemma_no_leading_zero(n: int)
    ensures
        decimal_of(n).len() > 0,
        n > 0 ==> decimal_of(n)[0] != '0',
    decreases n,
{
    if n >= 10 {
        lemma_no_leading_zero(n / 10);
        assert(decimal_of(n)[0] == decimal_of(n / 10)[0]);
    }
}

} // verus!
