//! Decimal digits: reading and writing natural numbers in base ten.

use vstd::arithmetic::power::{lemma_pow0, lemma_pow_adds, lemma_pow1, lemma_pow_positive, pow};
use vstd::prelude::*;

verus! {

/// Whether `c` is one of the ten ASCII digits.
pub open spec fn is_digit(c: char) -> bool {
    '0' <= c <= '9'
}

/// The number that a digit stands for.
pub open spec fn digit_value(c: char) -> nat {
    (c as nat - '0' as nat) as nat
}

/// The digit that stands for a number below ten.
pub open spec fn digit_char(d: nat) -> char {
    (d + '0' as nat) as char
}

/// Whether `c` is an ASCII digit.
pub fn is_ascii_digit(c: char) -> (digit: bool)
    ensures
        digit == is_digit(c),
{
    '0' <= c && c <= '9'
}

/// The number that the digit `c` stands for.
pub fn value_of_digit(c: char) -> (d: u8)
    requires
        is_digit(c),
    ensures
        d == digit_value(c),
        d < 10,
{
    (c as u32 - '0' as u32) as u8
}

/// The digit that stands for `d`.
pub fn digit_of_value(d: u8) -> (c: char)
    requires
        d < 10,
    ensures
        c == digit_char(d as nat),
        is_digit(c),
        digit_value(c) == d,
{
    (d + 48u8) as char
}

/// Whether every character of `s` is an ASCII digit.
pub open spec fn all_digits(s: Seq<char>) -> bool {
    forall|i: int| 0 <= i < s.len() ==> is_digit(#[trigger] s[i])
}

/// The number that a run of digits stands for in base ten. The empty run
/// stands for 0; leading zeros do not count.
pub open spec fn digits_value(digits: Seq<char>) -> nat
    decreases digits.len(),
{
    if digits.len() == 0 {
        0
    } else {
        10 * digits_value(digits.drop_last()) + digit_value(digits.last())
    }
}

/// The shortest run of digits that stands for `n`: no leading zero, but for
/// "0" itself.
pub open spec fn decimal(n: nat) -> Seq<char>
    decreases n,
{
    if n < 10 {
        seq![digit_char(n)]
    } else {
        decimal(n / 10).push(digit_char(n % 10))
    }
}

/// The last `width` digits of `n`, with leading zeros where `n` has fewer.
pub open spec fn fixed_digits(n: nat, width: nat) -> Seq<char>
    decreases width,
{
    if width == 0 {
        Seq::empty()
    } else {
        fixed_digits(n / 10, (width - 1) as nat).push(digit_char(n % 10))
    }
}

/// Ten to the power `e`, for an exponent up to 19, where it still fits.
pub fn pow10(e: u32) -> (p: u64)
    requires
        e <= 19,
    ensures
        p == pow(10, e as nat),
        p >= 1,
{
    let mut p: u64 = 1;
    let mut i: u32 = 0;
    proof {
        lemma_pow0(10);
        lemma_pow_step_bound(0);
    }
    while i < e
        invariant
            i <= e <= 19,
            p == pow(10, i as nat),
            1 <= p <= pow(10, 19),
            pow(10, 19) == 10_000_000_000_000_000_000,
        decreases e - i,
    {
        proof {
            lemma_pow_adds(10, i as nat, 1);
            lemma_pow1(10);
            lemma_pow_step_bound(i as nat);
        }
        p = p * 10;
        i += 1;
    }
    p
}

/// Powers of ten below the twentieth fit in 64 bits, and each is ten times
/// the one before.
pub proof fn lemma_pow_step_bound(e: nat)
    requires
        e < 19,
    ensures
        pow(10, e + 1) == 10 * pow(10, e),
        1 <= pow(10, e),
        pow(10, e + 1) <= pow(10, 19),
        pow(10, 19) == 10_000_000_000_000_000_000,
{
    reveal_with_fuel(pow, 20);
    lemma_pow_adds(10, e, 1);
    lemma_pow1(10);
    lemma_pow_positive(10, e);
    vstd::arithmetic::power::lemma_pow_increases(10, e + 1, 19);
    assert(pow(10, 19) == 10_000_000_000_000_000_000);
}

/// A longer run of digits stands for a number at least as large as any of
/// its prefixes.
pub proof fn lemma_digits_value_prefix(digits: Seq<char>, n: int)
    requires
        0 <= n <= digits.len(),
    ensures
        digits_value(digits.take(n)) <= digits_value(digits),
    decreases digits.len(),
{
    if n == digits.len() {
        assert(digits.take(n) =~= digits);
    } else {
        lemma_digits_value_prefix(digits.drop_last(), n);
        assert(digits.drop_last().take(n) =~= digits.take(n));
    }
}

/// The shortest decimal form of a number is a non-empty run of digits that
/// stands for the number.
pub proof fn lemma_decimal(n: nat)
    ensures
        decimal(n).len() >= 1,
        all_digits(decimal(n)),
        digits_value(decimal(n)) == n,
    decreases n,
{
    if n < 10 {
        assert(decimal(n).drop_last() =~= Seq::<char>::empty());
        assert(digits_value(decimal(n).drop_last()) == 0);
    } else {
        lemma_decimal(n / 10);
        let shorter = decimal(n / 10);
        assert(decimal(n).drop_last() =~= shorter);
        assert forall|i: int| 0 <= i < decimal(n).len() implies is_digit(#[trigger] decimal(n)[i]) by {
            if i < shorter.len() {
                assert(decimal(n)[i] == shorter[i]);
            }
        }
    }
}

/// The last `width` digits of a number are a run of `width` digits that
/// stands for the number modulo ten to the power `width`.
pub proof fn lemma_fixed_digits(n: nat, width: nat)
    ensures
        fixed_digits(n, width).len() == width,
        all_digits(fixed_digits(n, width)),
        digits_value(fixed_digits(n, width)) == n % (pow(10, width) as nat),
    decreases width,
{
    if width == 0 {
        lemma_pow0(10);
    } else {
        let less = (width - 1) as nat;
        lemma_fixed_digits(n / 10, less);
        let shorter = fixed_digits(n / 10, less);
        assert(fixed_digits(n, width).drop_last() =~= shorter);
        assert forall|i: int| 0 <= i < fixed_digits(n, width).len() implies is_digit(
            #[trigger] fixed_digits(n, width)[i],
        ) by {
            if i < shorter.len() {
                assert(fixed_digits(n, width)[i] == shorter[i]);
            }
        }
        lemma_pow_positive(10, less);
        lemma_pow_adds(10, less, 1);
        lemma_pow1(10);
        let unit = pow(10, less);
        assert(pow(10, width) == unit * 10);
        assert(10 * ((n / 10) as int % unit) + (n as int % 10) == (n as int) % (unit * 10)) by {
            vstd::arithmetic::div_mod::lemma_breakdown(n as int, 10, unit);
            assert(10 * unit == unit * 10) by (nonlinear_arith);
        }
    }
}

/// The number that the digits at positions `from..to` of `text` stand for,
/// or `None` if it is larger than `i64::MAX`.
pub fn parse_digits(text: &Vec<char>, from: usize, to: usize) -> (value: Option<i64>)
    requires
        from <= to <= text@.len(),
        all_digits(text@.subrange(from as int, to as int)),
    ensures
        match value {
            Some(v) => v == digits_value(text@.subrange(from as int, to as int)),
            None => digits_value(text@.subrange(from as int, to as int)) > i64::MAX,
        },
{
    let ghost run = text@.subrange(from as int, to as int);
    let mut value: i64 = 0;
    let mut i: usize = from;
    proof {
        assert(run.take(0) =~= Seq::<char>::empty());
    }
    while i < to
        invariant
            from <= i <= to <= text@.len(),
            run == text@.subrange(from as int, to as int),
            all_digits(run),
            0 <= value,
            value == digits_value(run.take(i - from)),
        decreases to - i,
    {
        let c = text[i];
        proof {
            assert(run[i - from] == c);
            assert(run.take(i - from + 1).drop_last() =~= run.take(i - from));
            assert(run.take(i - from + 1).last() == c);
            lemma_digits_value_prefix(run, i - from + 1);
        }
        let d = value_of_digit(c);
        let next = match value.checked_mul(10) {
            Some(tens) => tens.checked_add(d as i64),
            None => None,
        };
        match next {
            Some(v) => {
                value = v;
            },
            None => {
                return None;
            },
        }
        i += 1;
    }
    proof {
        assert(run.take(to - from) =~= run);
    }
    Some(value)
}

/// Append the shortest decimal form of `n` to `out`.
pub fn push_decimal(out: &mut Vec<char>, n: u64)
    ensures
        final(out)@ == old(out)@ + decimal(n as nat),
    decreases n,
{
    if n >= 10 {
        push_decimal(out, n / 10);
    }
    out.push(digit_of_value((n % 10) as u8));
    proof {
        if n >= 10 {
            assert(final(out)@ =~= old(out)@ + decimal(n as nat)) by {
                assert(out@ =~= old(out)@ + decimal((n / 10) as nat).push(digit_char((n % 10) as nat)));
            }
        } else {
            assert(out@ =~= old(out)@ + decimal(n as nat));
        }
    }
}

/// Append the last `width` decimal digits of `n` to `out`, with leading
/// zeros where `n` has fewer.
pub fn push_fixed_digits(out: &mut Vec<char>, n: u64, width: u32)
    ensures
        final(out)@ == old(out)@ + fixed_digits(n as nat, width as nat),
    decreases width,
{
    if width > 0 {
        push_fixed_digits(out, n / 10, width - 1);
        out.push(digit_of_value((n % 10) as u8));
        proof {
            assert(out@ =~= old(out)@ + fixed_digits((n / 10) as nat, (width - 1) as nat).push(
                digit_char((n % 10) as nat),
            ));
        }
    } else {
        proof {
            assert(out@ =~= old(out)@ + fixed_digits(n as nat, 0));
        }
    }
}

} // verus!
