//! Decimal text of integers: what `str::parse::<i64>` accepts and what
//! `i64::to_string` writes.

use vstd::prelude::*;

use crate::text::is_ascii_digit;

verus! {

/// The decimal value of a string of ASCII digits.
pub open spec fn decimal_value(s: Seq<char>) -> int
    decreases s.len(),
{
    if s.len() == 0 {
        0
    } else {
        decimal_value(s.drop_last()) * 10 + ((s.last() as u32) - ('0' as u32))
    }
}

pub open spec fn all_digits(s: Seq<char>) -> bool {
    forall|k: int| 0 <= k < s.len() ==> is_ascii_digit(#[trigger] s[k])
}

/// `str::parse::<i64>`: an optional sign, at least one ASCII digit, and a
/// value within the range of `i64`.
pub open spec fn parse_i64(s: Seq<char>) -> Option<int> {
    let negative = s.len() > 0 && s[0] == '-';
    let signed = s.len() > 0 && (s[0] == '-' || s[0] == '+');
    let digits = if signed {
        s.drop_first()
    } else {
        s
    };
    if digits.len() == 0 || !all_digits(digits) {
        None
    } else {
        let value = if negative {
            -decimal_value(digits)
        } else {
            decimal_value(digits)
        };
        if i64::MIN <= value <= i64::MAX {
            Some(value)
        } else {
            None
        }
    }
}

pub open spec fn digit_char(d: int) -> char {
    (('0' as u32) + d) as char
}

/// The decimal digits of `n`, without leading zeros.
pub open spec fn decimal_digits(n: nat) -> Seq<char>
    decreases n,
{
    if n < 10 {
        seq![digit_char(n as int)]
    } else {
        decimal_digits(n / 10).push(digit_char((n % 10) as int))
    }
}

/// `i64::to_string`.
pub open spec fn decimal_text(n: int) -> Seq<char> {
    if n < 0 {
        seq!['-'] + decimal_digits((-n) as nat)
    } else {
        decimal_digits(n as nat)
    }
}

/// One more digit at the end multiplies the value by ten and adds the digit.
pub proof fn lemma_decimal_value_push(s: Seq<char>, c: char)
    ensures
        decimal_value(s.push(c)) == decimal_value(s) * 10 + ((c as u32) - ('0' as u32)),
{
    assert(s.push(c).drop_last() =~= s);
}

/// A string of digits has a value of at least zero.
pub proof fn lemma_decimal_value_nonnegative(s: Seq<char>)
    requires
        all_digits(s),
    ensures
        decimal_value(s) >= 0,
    decreases s.len(),
{
    if s.len() > 0 {
        assert(all_digits(s.drop_last())) by {
            assert forall|k: int| 0 <= k < s.drop_last().len() implies is_ascii_digit(
                #[trigger] s.drop_last()[k],
            ) by {
                assert(s.drop_last()[k] == s[k]);
            }
        }
        lemma_decimal_value_nonnegative(s.drop_last());
        assert(is_ascii_digit(s[s.len() - 1]));
    }
}

/// The largest magnitude that the parser needs to tell apart.
const PARSE_CAP: u128 = 10_000_000_000_000_000_000;

/// `s` read as an `i64`, exactly as `str::parse::<i64>` reads it.
pub fn parse_i64_exec(s: &Vec<char>) -> (r: Option<i64>)
    ensures
        match parse_i64(s@) {
            Some(v) => r == Some(v as i64),
            None => r is None,
        },
{
    let n = s.len();
    let mut start: usize = 0;
    let mut negative = false;
    if n > 0 && (s[0] == '-' || s[0] == '+') {
        negative = s[0] == '-';
        start = 1;
    }
    let ghost digits = if s@.len() > 0 && (s@[0] == '-' || s@[0] == '+') {
        s@.drop_first()
    } else {
        s@
    };
    assert(digits =~= s@.subrange(start as int, n as int));
    if start == n {
        return None;
    }
    let mut value: u128 = 0;
    let mut k = start;
    assert(s@.subrange(start as int, start as int) =~= Seq::<char>::empty());
    while k < n
        invariant
            n == s@.len(),
            start <= k <= n,
            digits == s@.subrange(start as int, n as int),
            digits == (if s@.len() > 0 && (s@[0] == '-' || s@[0] == '+') {
                s@.drop_first()
            } else {
                s@
            }),
            forall|m: int| start <= m < k ==> is_ascii_digit(#[trigger] s@[m]),
            value <= PARSE_CAP + 1,
            value <= PARSE_CAP ==> value == decimal_value(s@.subrange(start as int, k as int)),
            value > PARSE_CAP ==> decimal_value(s@.subrange(start as int, k as int)) > PARSE_CAP,
            decimal_value(s@.subrange(start as int, k as int)) >= 0,
        decreases n - k,
    {
        let c = s[k];
        if !('0' <= c && c <= '9') {
            assert(!is_ascii_digit(digits[k - start]));
            return None;
        }
        let d = (c as u32) - ('0' as u32);
        proof {
            lemma_decimal_value_push(s@.subrange(start as int, k as int), c);
            assert(s@.subrange(start as int, k as int).push(c) =~= s@.subrange(
                start as int,
                k + 1,
            ));
        }
        if value > PARSE_CAP {
            assert(decimal_value(s@.subrange(start as int, k + 1)) > PARSE_CAP) by (nonlinear_arith)
                requires
                    decimal_value(s@.subrange(start as int, k + 1)) == decimal_value(
                        s@.subrange(start as int, k as int),
                    ) * 10 + d,
                    decimal_value(s@.subrange(start as int, k as int)) > PARSE_CAP,
                    d >= 0,
            ;
        } else {
            let next = value * 10 + (d as u128);
            value = if next > PARSE_CAP {
                PARSE_CAP + 1
            } else {
                next
            };
        }
        k = k + 1;
    }
    proof {
        assert forall|m: int| 0 <= m < digits.len() implies is_ascii_digit(#[trigger] digits[m]) by {
            assert(digits[m] == s@[start + m]);
        }
    }
    if negative {
        if value <= 9_223_372_036_854_775_808 {
            let magnitude = value as i128;
            Some((0 - magnitude) as i64)
        } else {
            None
        }
    } else {
        if value <= 9_223_372_036_854_775_807 {
            Some(value as i64)
        } else {
            None
        }
    }
}

/// Appends the decimal digits of `n` to `out`.
pub fn push_decimal_digits(n: u64, out: &mut Vec<char>)
    ensures
        final(out)@ == old(out)@ + decimal_digits(n as nat),
    decreases n,
{
    if n >= 10 {
        push_decimal_digits(n / 10, out);
    }
    let d = (n % 10) as u32;
    let c = match d {
        0 => '0',
        1 => '1',
        2 => '2',
        3 => '3',
        4 => '4',
        5 => '5',
        6 => '6',
        7 => '7',
        8 => '8',
        _ => '9',
    };
    assert(c == digit_char(d as int));
    let ghost before = out@;
    out.push(c);
    proof {
        if n >= 10 {
            assert(out@ =~= old(out)@ + decimal_digits(n as nat));
        } else {
            assert(decimal_digits(n as nat) == seq![digit_char(n as int)]);
            assert(out@ =~= old(out)@ + decimal_digits(n as nat));
        }
    }
}

/// The decimal text of `n`, as `i64::to_string` writes it.
pub fn decimal_chars(n: i64) -> (r: Vec<char>)
    ensures
        r@ == decimal_text(n as int),
{
    let mut out: Vec<char> = Vec::new();
    if n < 0 {
        out.push('-');
        let magnitude: u64 = if n == i64::MIN {
            9_223_372_036_854_775_808
        } else {
            (0 - n) as u64
        };
        push_decimal_digits(magnitude, &mut out);
        assert(out@ =~= seq!['-'] + decimal_digits((-n) as nat));
    } else {
        push_decimal_digits(n as u64, &mut out);
        assert(out@ =~= decimal_digits(n as nat));
    }
    out
}

} // verus!
