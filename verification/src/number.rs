//! Base-10 integers as text: reading a signed 64-bit integer, and writing
//! one out.

use vstd::prelude::*;

verus! {

/// An ASCII decimal digit.
pub open spec fn is_digit(c: char) -> bool {
    0x30 <= c as u32 <= 0x39
}

/// The number that a decimal digit stands for.
pub open spec fn digit_value(c: char) -> int {
    c as u32 - 0x30
}

/// The digit that stands for `d`, for `d` from 0 to 9.
pub open spec fn digit_char(d: int) -> char {
    (d + 0x30) as char
}

/// Every character of `s` is a decimal digit.
pub open spec fn all_digits(s: Seq<char>) -> bool {
    forall|i: int| 0 <= i < s.len() ==> is_digit(#[trigger] s[i])
}

/// The number that a run of decimal digits stands for; 0 for the empty run.
pub open spec fn digits_value(s: Seq<char>) -> int
    decreases s.len(),
{
    if s.len() == 0 {
        0
    } else {
        10 * digits_value(s.drop_last()) + digit_value(s.last())
    }
}

/// 1 where `s` starts with a sign, else 0.
pub open spec fn sign_len(s: Seq<char>) -> int {
    if s.len() > 0 && (s.first() == '+' || s.first() == '-') {
        1
    } else {
        0
    }
}

/// `s` is an optional sign followed by one or more decimal digits.
pub open spec fn is_integer_text(s: Seq<char>) -> bool {
    let digits = s.skip(sign_len(s));
    digits.len() > 0 && all_digits(digits)
}

/// The integer that `s` stands for, where `s` is integer text.
pub open spec fn integer_value(s: Seq<char>) -> int {
    let magnitude = digits_value(s.skip(sign_len(s)));
    if s.len() > 0 && s.first() == '-' {
        -magnitude
    } else {
        magnitude
    }
}

/// The signed 64-bit integer that `s` stands for: `None` where `s` is no
/// integer text or its value does not fit.
pub open spec fn parse_int(s: Seq<char>) -> Option<i64> {
    if is_integer_text(s) && i64::MIN <= integer_value(s) <= i64::MAX {
        Some(integer_value(s) as i64)
    } else {
        None
    }
}

/// The decimal digits of `n`, most significant first, without leading zeros.
pub open spec fn decimal_nat(n: nat) -> Seq<char>
    decreases n,
{
    if n < 10 {
        seq![digit_char(n as int)]
    } else {
        decimal_nat(n / 10).push(digit_char((n % 10) as int))
    }
}

/// The decimal text of `n`, with a leading `-` where `n` is negative.
pub open spec fn decimal(n: int) -> Seq<char> {
    if n < 0 {
        seq!['-'] + decimal_nat((-n) as nat)
    } else {
        decimal_nat(n as nat)
    }
}

/// The value of a run of digits is not negative, and not less than that of
/// any of its prefixes.
pub proof fn lemma_digits_value_prefix(s: Seq<char>, k: int)
    requires
        all_digits(s),
        0 <= k <= s.len(),
    ensures
        0 <= digits_value(s.take(k)) <= digits_value(s),
    decreases s.len() - k,
{
    if k == s.len() {
        assert(s.take(k) =~= s);
        lemma_digits_value_nonneg(s);
    } else {
        let t = s.drop_last();
        assert(t.take(k) =~= s.take(k));
        lemma_digits_value_prefix(t, k);
        assert(is_digit(s.last()));
    }
}

/// The value of a run of digits is not negative.
pub proof fn lemma_digits_value_nonneg(s: Seq<char>)
    requires
        all_digits(s),
    ensures
        0 <= digits_value(s),
    decreases s.len(),
{
    if s.len() > 0 {
        lemma_digits_value_nonneg(s.drop_last());
        assert(is_digit(s.last()));
    }
}

/// The decimal digits of `n` are digits, at least one, and stand for `n`.
pub proof fn lemma_decimal_nat(n: nat)
    ensures
        decimal_nat(n).len() >= 1,
        all_digits(decimal_nat(n)),
        digits_value(decimal_nat(n)) == n,
    decreases n,
{
    if n < 10 {
        let s = decimal_nat(n);
        assert(s.drop_last() =~= Seq::<char>::empty());
        assert(digits_value(s.drop_last()) == 0);
    } else {
        lemma_decimal_nat(n / 10);
        let s = decimal_nat(n);
        assert(s.drop_last() =~= decimal_nat(n / 10));
    }
}

/// Reading the decimal text of an integer gives the integer back.
pub proof fn lemma_decimal_round_trip(n: int)
    ensures
        is_integer_text(decimal(n)),
        integer_value(decimal(n)) == n,
{
    let s = decimal(n);
    if n < 0 {
        let d = decimal_nat((-n) as nat);
        lemma_decimal_nat((-n) as nat);
        assert(s.skip(1) =~= d);
    } else {
        let d = decimal_nat(n as nat);
        lemma_decimal_nat(n as nat);
        assert(is_digit(d[0]));
        assert(s.skip(0) =~= d);
    }
}

/// Tells whether `c` is an ASCII decimal digit.
pub fn is_ascii_digit(c: char) -> (b: bool)
    ensures
        b == is_digit(c),
{
    let n: u32 = c as u32;
    0x30 <= n && n <= 0x39
}

/// Reads `v` as a signed 64-bit integer in base 10.
pub fn parse_i64(v: &Vec<char>) -> (r: Option<i64>)
    ensures
        r == parse_int(v@),
{
    let n: usize = v.len();
    if n == 0 {
        return None;
    }
    let negative: bool = v[0] == '-';
    let start: usize = if v[0] == '-' || v[0] == '+' {
        1
    } else {
        0
    };
    if start == n {
        return None;
    }
    let ghost digits = v@.skip(start as int);
    let limit: u128 = 0x8000_0000_0000_0000;
    let mut acc: u128 = 0;
    let mut i: usize = start;
    assert(digits.take(0) =~= Seq::<char>::empty());
    while i < n
        invariant
            start <= i <= n == v.len(),
            start == sign_len(v@),
            digits == v@.skip(start as int),
            all_digits(digits.take(i - start)),
            acc == digits_value(digits.take(i - start)),
            acc <= limit == 0x8000_0000_0000_0000,
        decreases n - i,
    {
        let c: char = v[i];
        if !is_ascii_digit(c) {
            assert(digits[i - start] == c);
            return None;
        }
        let d: u128 = (c as u32 - 0x30) as u128;
        let next: u128 = acc * 10 + d;
        proof {
            let p = digits.take(i - start + 1);
            assert(p.drop_last() =~= digits.take(i - start));
            assert(p.last() == c);
            assert forall|j: int| 0 <= j < p.len() implies is_digit(#[trigger] p[j]) by {
                if j < p.len() - 1 {
                    assert(p[j] == digits.take(i - start)[j]);
                }
            }
        }
        if next > limit {
            proof {
                if all_digits(digits) {
                    lemma_digits_value_prefix(digits, i - start + 1);
                }
            }
            return None;
        }
        acc = next;
        i += 1;
    }
    assert(digits.take(n - start) =~= digits);
    if negative {
        if acc == limit {
            Some(i64::MIN)
        } else {
            Some(-(acc as i64))
        }
    } else if acc == limit {
        None
    } else {
        Some(acc as i64)
    }
}

/// The digit for `d`.
pub fn digit_of(d: u8) -> (c: char)
    requires
        d < 10,
    ensures
        c == digit_char(d as int),
{
    (d + 0x30) as char
}

/// The decimal text of `n`.
pub fn decimal_of(n: usize) -> (v: Vec<char>)
    ensures
        v@ == decimal(n as int),
    decreases n,
{
    if n < 10 {
        let mut v: Vec<char> = Vec::new();
        v.push(digit_of(n as u8));
        assert(v@ =~= decimal_nat(n as nat));
        v
    } else {
        let mut v = decimal_of(n / 10);
        v.push(digit_of((n % 10) as u8));
        v
    }
}

} // verus!
