//! Whole numbers as decimal text: writing them and reading them.

use crate::text::push_char;
use vstd::prelude::*;

verus! {

/// Whether `c` is one of the digits `0` to `9`.
pub open spec fn is_digit(c: char) -> bool {
    '0' <= c <= '9'
}

/// The digit for a value below ten.
pub open spec fn digit_char(d: int) -> char {
    if d == 0 {
        '0'
    } else if d == 1 {
        '1'
    } else if d == 2 {
        '2'
    } else if d == 3 {
        '3'
    } else if d == 4 {
        '4'
    } else if d == 5 {
        '5'
    } else if d == 6 {
        '6'
    } else if d == 7 {
        '7'
    } else if d == 8 {
        '8'
    } else {
        '9'
    }
}

/// The value of a digit.
pub open spec fn digit_value(c: char) -> int {
    if c == '0' {
        0
    } else if c == '1' {
        1
    } else if c == '2' {
        2
    } else if c == '3' {
        3
    } else if c == '4' {
        4
    } else if c == '5' {
        5
    } else if c == '6' {
        6
    } else if c == '7' {
        7
    } else if c == '8' {
        8
    } else {
        9
    }
}

/// The decimal digits of `n`, without leading zeros.
pub open spec fn decimal_nat(n: nat) -> Seq<char>
    decreases n,
{
    if n < 10 {
        seq![digit_char(n as int)]
    } else {
        decimal_nat(n / 10).push(digit_char((n % 10) as int))
    }
}

/// The decimal text of `v`, with a minus sign where it is negative.
pub open spec fn decimal(v: int) -> Seq<char> {
    if v < 0 {
        seq!['-'] + decimal_nat((-v) as nat)
    } else {
        decimal_nat(v as nat)
    }
}

/// The value of a text of digits.
pub open spec fn digits_value(s: Seq<char>) -> int
    decreases s.len(),
{
    if s.len() == 0 {
        0
    } else {
        digits_value(s.drop_last()) * 10 + digit_value(s.last())
    }
}

/// Whether `s` holds digits only.
pub open spec fn all_digits(s: Seq<char>) -> bool {
    forall|i: int| 0 <= i < s.len() ==> is_digit(#[trigger] s[i])
}

/// The number that the text `s` stands for as a 32-bit integer: an optional
/// sign, then at least one digit and nothing else, with a value in range.
pub open spec fn parsed_i32(s: Seq<char>) -> Option<int> {
    let signed = s.len() > 0 && (s[0] == '-' || s[0] == '+');
    let digits = if signed {
        s.drop_first()
    } else {
        s
    };
    let value = if signed && s[0] == '-' {
        -digits_value(digits)
    } else {
        digits_value(digits)
    };
    if digits.len() > 0 && all_digits(digits) && i32::MIN <= value <= i32::MAX {
        Some(value)
    } else {
        None
    }
}

/// The value of a text of digits is not negative, and not below the value
/// of any text of digits that it begins with.
pub proof fn lemma_digits_value_grows(s: Seq<char>, n: int)
    requires
        0 <= n <= s.len(),
    ensures
        0 <= digits_value(s.take(n)) <= digits_value(s),
    decreases s.len() - n,
{
    lemma_digits_value_nonnegative(s.take(n));
    if n < s.len() {
        lemma_digits_value_grows(s, n + 1);
        assert(s.take(n + 1).drop_last() == s.take(n));
        lemma_digits_value_nonnegative(s.take(n));
    } else {
        assert(s.take(n) == s);
    }
}

/// The value of a text of digits is not negative.
pub proof fn lemma_digits_value_nonnegative(s: Seq<char>)
    ensures
        0 <= digits_value(s),
    decreases s.len(),
{
    if s.len() > 0 {
        lemma_digits_value_nonnegative(s.drop_last());
    }
}

/// The digit for a value below ten.
fn digit_of(d: u64) -> (c: char)
    requires
        d < 10,
    ensures
        c == digit_char(d as int),
{
    if d == 0 {
        '0'
    } else if d == 1 {
        '1'
    } else if d == 2 {
        '2'
    } else if d == 3 {
        '3'
    } else if d == 4 {
        '4'
    } else if d == 5 {
        '5'
    } else if d == 6 {
        '6'
    } else if d == 7 {
        '7'
    } else if d == 8 {
        '8'
    } else {
        '9'
    }
}

/// The value of a digit, or nothing where `c` is no digit.
fn value_of(c: char) -> (r: Option<i64>)
    ensures
        r is Some == is_digit(c),
        r matches Some(d) ==> d == digit_value(c) && 0 <= d < 10,
{
    if c == '0' {
        Some(0)
    } else if c == '1' {
        Some(1)
    } else if c == '2' {
        Some(2)
    } else if c == '3' {
        Some(3)
    } else if c == '4' {
        Some(4)
    } else if c == '5' {
        Some(5)
    } else if c == '6' {
        Some(6)
    } else if c == '7' {
        Some(7)
    } else if c == '8' {
        Some(8)
    } else if c == '9' {
        Some(9)
    } else {
        None
    }
}

/// Append the decimal digits of `n` to `s`.
pub fn append_decimal(s: &mut String, n: u64)
    ensures
        final(s)@ == old(s)@ + decimal_nat(n as nat),
{
    let mut digits: Vec<char> = Vec::new();
    digits.push(digit_of(n % 10));
    let mut rest: u64 = n / 10;
    while rest > 0
        invariant
            decimal_nat(n as nat) == if rest == 0 {
                digits@
            } else {
                decimal_nat(rest as nat) + digits@
            },
        decreases rest,
    {
        let ghost before = digits@;
        digits.insert(0, digit_of(rest % 10));
        proof {
            assert(digits@ == seq![digit_char((rest % 10) as int)] + before);
            if rest >= 10 {
                assert(decimal_nat(rest as nat) + before == decimal_nat((rest / 10) as nat)
                    + digits@);
            }
        }
        rest = rest / 10;
    }
    let mut i: usize = 0;
    assert(s@ + digits@.take(0) == s@);
    while i < digits.len()
        invariant
            i <= digits.len(),
            s@ == old(s)@ + digits@.take(i as int),
        decreases digits.len() - i,
    {
        push_char(s, digits[i]);
        assert(digits@.take(i + 1) == digits@.take(i as int).push(digits@[i as int]));
        i += 1;
    }
    assert(digits@.take(digits.len() as int) == digits@);
}

/// Append the decimal text of `v` to `s`.
pub fn append_signed(s: &mut String, v: i32)
    ensures
        final(s)@ == old(s)@ + decimal(v as int),
{
    if v < 0 {
        push_char(s, '-');
        let ghost signed = s@;
        let magnitude: u64 = (-(v as i64)) as u64;
        append_decimal(s, magnitude);
        assert(s@ == old(s)@ + (seq!['-'] + decimal_nat(magnitude as nat)));
    } else {
        append_decimal(s, v as u64);
    }
}

/// Read a 32-bit integer as std's `str::parse::<i32>` does: an optional
/// sign, then digits; nothing where the text is something else or the value
/// is out of range.
pub fn parse_i32(s: &Vec<char>) -> (r: Option<i32>)
    ensures
        match r {
            Some(v) => parsed_i32(s@) == Some(v as int),
            None => parsed_i32(s@) is None,
        },
{
    let n = s.len();
    if n == 0 {
        return None;
    }
    let negative = s[0] == '-';
    let start: usize = if s[0] == '-' || s[0] == '+' {
        1
    } else {
        0
    };
    let ghost digits = if start == 1 {
        s@.drop_first()
    } else {
        s@
    };
    assert(digits == s@.skip(start as int));
    if start == n {
        return None;
    }
    let mut value: i64 = 0;
    let mut i: usize = start;
    assert(digits.take(0) == Seq::<char>::empty());
    while i < n
        invariant
            start <= i <= n,
            n == s.len(),
            n > 0,
            start == if s@[0] == '-' || s@[0] == '+' {
                1int
            } else {
                0int
            },
            digits == if start == 1 {
                s@.drop_first()
            } else {
                s@
            },
            digits == s@.skip(start as int),
            all_digits(digits.take(i - start)),
            value == digits_value(digits.take(i - start)),
            0 <= value <= 2147483648,
        decreases n - i,
    {
        let ghost seen = digits.take(i - start);
        let ghost more = digits.take(i + 1 - start);
        proof {
            assert(more.drop_last() == seen);
            assert(more.last() == s@[i as int]);
        }
        match value_of(s[i]) {
            Some(d) => {
                value = value * 10 + d;
                proof {
                    assert(value == digits_value(more));
                    assert forall|k: int| 0 <= k < more.len() implies is_digit(
                        #[trigger] more[k],
                    ) by {
                        if k < seen.len() {
                            assert(more[k] == seen[k]);
                        }
                    }
                }
                if value > 2147483648 {
                    proof {
                        lemma_digits_value_grows(digits, i + 1 - start);
                        assert(digits_value(digits) > 2147483648);
                    }
                    return None;
                }
            },
            None => {
                assert(!is_digit(digits[i - start]));
                assert(!all_digits(digits));
                return None;
            },
        }
        i += 1;
    }
    assert(digits.take(n - start) == digits);
    if negative {
        Some((-value) as i32)
    } else if value > 2147483647 {
        None
    } else {
        Some(value as i32)
    }
}

} // verus!
