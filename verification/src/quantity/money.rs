//! Money amounts in the smallest unit of a currency, and their string form.

use vstd::arithmetic::div_mod::lemma_div_denominator;
use vstd::arithmetic::power::{lemma_pow0, lemma_pow1, lemma_pow_adds, lemma_pow_positive, pow};
use vstd::prelude::*;
use crate::decimal::{
    all_digits,
    decimal,
    lemma_decimal,
    lemma_fixed_digits,
    digits_value,
    fixed_digits,
    is_ascii_digit,
    is_digit,
    lemma_pow_step_bound,
    parse_digits,
    pow10,
    push_decimal,
    push_fixed_digits,
};
use crate::quantity::Quantity;
use crate::text::{chars_of, push_chars};
use crate::variant::Error;

verus! {

/// Whether `c` is a space, a tab, a carriage return or a line feed.
pub open spec fn is_space(c: char) -> bool {
    c == ' ' || c == '\t' || c == '\r' || c == '\n'
}

/// Whether `c` is a plus or a minus sign.
pub open spec fn is_sign(c: char) -> bool {
    c == '+' || c == '-'
}

/// The first position from `from` on that holds no white space.
pub open spec fn spaces_end(text: Seq<char>, from: int) -> int
    decreases text.len() - from,
{
    if 0 <= from < text.len() && is_space(text[from]) {
        spaces_end(text, from + 1)
    } else {
        from
    }
}

/// The first position from `from` on that holds no digit.
pub open spec fn digits_end(text: Seq<char>, from: int) -> int
    decreases text.len() - from,
{
    if 0 <= from < text.len() && is_digit(text[from]) {
        digits_end(text, from + 1)
    } else {
        from
    }
}

/// Whether `prefix` stands in `text` at position `from`.
pub open spec fn starts_with_at(text: Seq<char>, from: int, prefix: Seq<char>) -> bool {
    &&& 0 <= from
    &&& from + prefix.len() <= text.len()
    &&& text.subrange(from, from + prefix.len()) == prefix
}

/// The parts of a money amount, as they are read from left to right: a
/// sign, the currency symbol, a sign, the whole units, and a decimal point
/// with the fraction digits. Every part may be missing, and white space may
/// follow every part but the whole units and the point.
pub struct MoneyParts {
    /// The sign before the symbol, if there is one.
    pub sign_before: Option<char>,
    /// The sign after the symbol, if there is one.
    pub sign_after: Option<char>,
    /// Where the digits of the whole units start.
    pub whole_from: int,
    /// Where the digits of the whole units end. There are none if this is
    /// `whole_from`.
    pub whole_to: int,
    /// Whether a decimal point follows the whole units.
    pub point: bool,
    /// Where the fraction digits end. They start after the point.
    pub fraction_to: int,
    /// Where the amount and the white space behind it end.
    pub end: int,
}

/// The parts of `text` read as a money amount with the given symbol.
pub open spec fn money_parts(text: Seq<char>, symbol: Seq<char>) -> MoneyParts {
    let signed_before = 0 < text.len() && is_sign(text[0]);
    let after_sign = if signed_before {
        spaces_end(text, 1)
    } else {
        0
    };
    let after_symbol = if starts_with_at(text, after_sign, symbol) {
        spaces_end(text, after_sign + symbol.len())
    } else {
        after_sign
    };
    let signed_after = after_symbol < text.len() && is_sign(text[after_symbol]);
    let whole_from = if signed_after {
        spaces_end(text, after_symbol + 1)
    } else {
        after_symbol
    };
    let whole_to = digits_end(text, whole_from);
    let point = whole_to < text.len() && text[whole_to] == '.';
    let fraction_to = if point {
        digits_end(text, whole_to + 1)
    } else {
        whole_to
    };
    MoneyParts {
        sign_before: if signed_before {
            Some(text[0])
        } else {
            None
        },
        sign_after: if signed_after {
            Some(text[after_symbol])
        } else {
            None
        },
        whole_from: whole_from,
        whole_to: whole_to,
        point,
        fraction_to: fraction_to,
        end: spaces_end(text, fraction_to),
    }
}

/// A fraction of `digits` digits that stand for `value`, in units of
/// `precision` digits: padded with zeros where it is shorter, cut off where
/// it is longer.
pub open spec fn scaled_fraction(value: nat, digits: nat, precision: nat) -> int {
    if digits <= precision {
        value * pow(10, (precision - digits) as nat)
    } else {
        (value as int) / pow(10, (digits - precision) as nat)
    }
}

/// The amount that `text` stands for, in units of `precision` decimal
/// places, or `None` if `text` is no money amount.
///
/// The text must be a money amount from its first to its last character
/// (see [`MoneyParts`]). The only sign accepted is a single minus. Neither
/// the whole units nor the fraction digits, read as a number, may be
/// larger than `i64::MAX`, and the amount must fit in an `i64`.
pub open spec fn money_amount(text: Seq<char>, symbol: Seq<char>, precision: nat) -> Option<int> {
    let parts = money_parts(text, symbol);
    let whole = digits_value(text.subrange(parts.whole_from, parts.whole_to));
    let fraction_from = parts.whole_to + 1;
    let fraction = if parts.point {
        digits_value(text.subrange(fraction_from, parts.fraction_to))
    } else {
        0
    };
    let fraction_digits = if parts.point {
        (parts.fraction_to - fraction_from) as nat
    } else {
        0
    };
    let magnitude = whole * pow(10, precision) + scaled_fraction(
        fraction,
        fraction_digits,
        precision,
    );
    let amount = match (parts.sign_before, parts.sign_after) {
        (Some(c), None) => if c == '-' {
            Some(-magnitude)
        } else {
            None
        },
        (None, Some(c)) => if c == '-' {
            Some(-magnitude)
        } else {
            None
        },
        (None, None) => Some(magnitude),
        (Some(_), Some(_)) => None,
    };
    if parts.end != text.len() || whole > i64::MAX || fraction > i64::MAX {
        None
    } else {
        match amount {
            Some(a) => if i64::MIN <= a <= i64::MAX {
                Some(a)
            } else {
                None
            },
            None => None,
        }
    }
}

/// The string form of an amount in units of `precision` decimal places: a
/// minus sign if it is negative, the symbol, the whole units, a decimal
/// point, and exactly `precision` fraction digits.
pub open spec fn money_text(value: int, symbol: Seq<char>, precision: nat) -> Seq<char> {
    let magnitude = if value < 0 {
        -value
    } else {
        value
    };
    let unit = pow(10, precision);
    let sign = if value < 0 {
        seq!['-']
    } else {
        Seq::<char>::empty()
    };
    sign + symbol + decimal((magnitude / unit) as nat) + seq!['.'] + fixed_digits(
        (magnitude % unit) as nat,
        precision,
    )
}

/// Whether a currency symbol can be told from what may stand before it: it
/// is empty, or starts with neither a sign nor white space.
pub open spec fn is_plain_symbol(symbol: Seq<char>) -> bool {
    symbol.len() == 0 || !(is_sign(symbol[0]) || is_space(symbol[0]))
}

/// A run of digits ends where the text ends or a character is no digit.
pub proof fn lemma_digits_end(text: Seq<char>, from: int, to: int)
    requires
        0 <= from <= to <= text.len(),
        forall|i: int| from <= i < to ==> is_digit(#[trigger] text[i]),
        to == text.len() || !is_digit(text[to]),
    ensures
        digits_end(text, from) == to,
    decreases to - from,
{
    if from < to {
        lemma_digits_end(text, from + 1, to);
    }
}

/// Reading what was written gives the amount back: the string form of any
/// amount, read with the same symbol and precision, is that amount.
///
/// For the lowest amount of all, `i64::MIN`, this holds with a precision
/// from 1 to 18: otherwise its units or its fraction digits alone stand for
/// a number larger than `i64::MAX`, which is not read.
pub proof fn lemma_money_round_trip(value: int, symbol: Seq<char>, precision: nat)
    requires
        i64::MIN <= value <= i64::MAX,
        is_plain_symbol(symbol),
        value > i64::MIN || 1 <= precision <= 18,
    ensures
        money_amount(money_text(value, symbol, precision), symbol, precision) == Some(value),
{
    let magnitude = if value < 0 {
        -value
    } else {
        value
    };
    let unit = pow(10, precision);
    lemma_pow_positive(10, precision);
    let whole = (magnitude / unit) as nat;
    let fraction = (magnitude % unit) as nat;
    let sign = if value < 0 {
        seq!['-']
    } else {
        Seq::<char>::empty()
    };
    let units = decimal(whole);
    let cents = fixed_digits(fraction, precision);
    let text = money_text(value, symbol, precision);
    assert(text == sign + symbol + units + seq!['.'] + cents);
    lemma_decimal(whole);
    lemma_fixed_digits(fraction, precision);
    vstd::arithmetic::div_mod::lemma_fundamental_div_mod(magnitude, unit);
    vstd::arithmetic::div_mod::lemma_mod_bound(magnitude, unit);
    vstd::arithmetic::div_mod::lemma_small_mod(fraction, unit as nat);
    assert(magnitude == unit * (whole as int) + fraction);
    assert(whole <= i64::MAX) by {
        if precision >= 1 {
            lemma_pow_adds(10, (precision - 1) as nat, 1);
            lemma_pow1(10);
            lemma_pow_positive(10, (precision - 1) as nat);
            assert(unit >= 10) by (nonlinear_arith)
                requires
                    unit == pow(10, (precision - 1) as nat) * 10,
                    pow(10, (precision - 1) as nat) >= 1,
            ;
            assert(whole * 10 <= magnitude) by (nonlinear_arith)
                requires
                    magnitude == unit * (whole as int) + fraction,
                    unit >= 10,
                    whole >= 0,
                    fraction >= 0,
            ;
        } else {
            lemma_pow0(10);
            assert(whole <= magnitude) by (nonlinear_arith)
                requires
                    magnitude == unit * (whole as int) + fraction,
                    unit >= 1,
                    whole >= 0,
                    fraction >= 0,
            ;
        }
    }
    let a = sign.len() as int;
    let b = a + symbol.len();
    let c = b + units.len();
    let d = c + 1;
    let e = d + precision;
    assert(text.len() == e);
    assert(forall|i: int| 0 <= i < symbol.len() ==> text[a + i] == symbol[i]);
    assert(forall|i: int| 0 <= i < units.len() ==> text[b + i] == units[i]);
    assert(text[c] == '.');
    assert(forall|i: int| 0 <= i < cents.len() ==> text[d + i] == cents[i]);
    assert(is_digit(text[b])) by {
        assert(text[b + 0] == units[0]);
    }
    // What stands first is the sign, or else no sign.
    let signed_before = 0 < text.len() && is_sign(text[0]);
    assert(signed_before == (value < 0)) by {
        if value >= 0 {
            if symbol.len() > 0 {
                assert(text[a + 0] == symbol[0]);
            }
        }
    }
    let after_sign = if signed_before {
        spaces_end(text, 1)
    } else {
        0
    };
    assert(after_sign == a) by {
        if value < 0 {
            if symbol.len() > 0 {
                assert(text[a + 0] == symbol[0]);
            }
        }
    }
    assert(starts_with_at(text, after_sign, symbol)) by {
        assert(text.subrange(a, a + symbol.len()) =~= symbol);
    }
    let after_symbol = spaces_end(text, after_sign + symbol.len());
    assert(after_symbol == b);
    assert(!is_sign(text[b]));
    assert forall|i: int| b <= i < c implies is_digit(#[trigger] text[i]) by {
        assert(text[b + (i - b)] == units[i - b]);
    }
    lemma_digits_end(text, b, c);
    assert forall|i: int| d <= i < e implies is_digit(#[trigger] text[i]) by {
        assert(text[d + (i - d)] == cents[i - d]);
    }
    lemma_digits_end(text, d, e);
    let parts = money_parts(text, symbol);
    assert(parts.sign_before == if value < 0 {
        Some('-')
    } else {
        None::<char>
    });
    assert(parts.sign_after is None);
    assert(parts.whole_from == b);
    assert(parts.whole_to == c);
    assert(parts.point);
    assert(parts.fraction_to == e);
    assert(parts.end == e);
    assert(text.subrange(b, c) =~= units);
    assert(text.subrange(d, e) =~= cents);
    lemma_pow0(10);
    assert(scaled_fraction(fraction, precision, precision) == fraction);
    assert(whole * unit + fraction == magnitude) by (nonlinear_arith)
        requires
            magnitude == unit * (whole as int) + fraction,
    ;
    assert(digits_value(text.subrange(parts.whole_from, parts.whole_to)) == whole);
    assert(digits_value(text.subrange(parts.whole_to + 1, parts.fraction_to)) == fraction);
    assert((parts.fraction_to - (parts.whole_to + 1)) as nat == precision);
    let read = whole * pow(10, precision) + scaled_fraction(fraction, precision, precision);
    assert(read == magnitude);
    assert(fraction <= i64::MAX) by {
        if value > i64::MIN {
            assert(fraction <= magnitude) by (nonlinear_arith)
                requires
                    magnitude == unit * (whole as int) + fraction,
                    unit >= 1,
                    whole >= 0,
            ;
        } else {
            lemma_pow_step_bound(18);
            vstd::arithmetic::power::lemma_pow_increases(10, precision, 18);
            assert(fraction < unit);
            assert(unit <= pow(10, 18));
            assert(pow(10, 18) == 1_000_000_000_000_000_000);
        }
    }
}

/// The first position from `from` on that holds no white space.
fn skip_spaces(text: &Vec<char>, from: usize) -> (end: usize)
    requires
        from <= text@.len(),
    ensures
        end == spaces_end(text@, from as int),
        from <= end <= text@.len(),
{
    let mut end = from;
    while end < text.len() && (text[end] == ' ' || text[end] == '\t' || text[end] == '\r'
        || text[end] == '\n')
        invariant
            from <= end <= text@.len(),
            spaces_end(text@, from as int) == spaces_end(text@, end as int),
        decreases text@.len() - end,
    {
        end += 1;
    }
    end
}

/// The first position from `from` on that holds no digit.
fn skip_digits(text: &Vec<char>, from: usize) -> (end: usize)
    requires
        from <= text@.len(),
    ensures
        end == digits_end(text@, from as int),
        from <= end <= text@.len(),
        all_digits(text@.subrange(from as int, end as int)),
{
    let mut end = from;
    while end < text.len() && is_ascii_digit(text[end])
        invariant
            from <= end <= text@.len(),
            digits_end(text@, from as int) == digits_end(text@, end as int),
            all_digits(text@.subrange(from as int, end as int)),
        decreases text@.len() - end,
    {
        end += 1;
        proof {
            assert forall|i: int| 0 <= i < end - from implies is_digit(
                #[trigger] text@.subrange(from as int, end as int)[i],
            ) by {
                if i < end - from - 1 {
                    assert(text@.subrange(from as int, end - 1)[i] == text@[from + i]);
                }
            }
        }
    }
    end
}

/// Whether `prefix` stands in `text` at position `from`.
fn starts_with(text: &Vec<char>, from: usize, prefix: &Vec<char>) -> (found: bool)
    requires
        from <= text@.len(),
    ensures
        found == starts_with_at(text@, from as int, prefix@),
{
    if prefix.len() > text.len() - from {
        return false;
    }
    let mut i: usize = 0;
    while i < prefix.len()
        invariant
            from + prefix@.len() <= text@.len() <= usize::MAX,
            i <= prefix@.len(),
            forall|j: int| 0 <= j < i ==> text@[from + j] == prefix@[j],
        decreases prefix@.len() - i,
    {
        if text[from + i] != prefix[i] {
            proof {
                assert(text@.subrange(from as int, from + prefix@.len())[i as int] != prefix@[i as int]);
            }
            return false;
        }
        i += 1;
    }
    proof {
        assert(text@.subrange(from as int, from + prefix@.len()) =~= prefix@);
    }
    true
}

/// The description of every error of [`money_from_str`].
pub open spec fn money_error() -> Seq<char> {
    "error in money value"@
}

/// The fraction `value`, read from `digits` digits, in units of `precision`
/// digits.
fn scale_fraction(value: i64, digits: usize, precision: u32) -> (scaled: i128)
    requires
        0 <= value,
        precision <= 18,
    ensures
        scaled == scaled_fraction(value as nat, digits as nat, precision as nat),
        0 <= scaled <= value * pow(10, 18),
        pow(10, 18) == 1_000_000_000_000_000_000,
{
    proof {
        lemma_pow0(10);
        lemma_pow_step_bound(18);
        lemma_pow_step_bound(17);
        assert(pow(10, 18) == 1_000_000_000_000_000_000);
        assert(value <= value * pow(10, 18)) by (nonlinear_arith)
            requires
                0 <= value,
                pow(10, 18) >= 1,
        ;
    }
    let mut scaled: i128 = value as i128;
    let mut width: usize = digits;
    if digits > precision as usize {
        while width > precision as usize
            invariant
                precision as usize <= width <= digits,
                0 <= scaled <= value,
                scaled == (value as int) / pow(10, (digits - width) as nat),
            decreases width,
        {
            proof {
                let e = (digits - width) as nat;
                lemma_pow_positive(10, e);
                lemma_pow_adds(10, e, 1);
                lemma_pow1(10);
                lemma_div_denominator(value as int, pow(10, e), 10);
            }
            scaled = scaled / 10;
            width -= 1;
        }
    } else {
        while width < precision as usize
            invariant
                digits <= width <= precision <= 18,
                0 <= value,
                scaled == value * pow(10, (width - digits) as nat),
                0 <= scaled <= value * pow(10, 18),
                pow(10, 18) == 1_000_000_000_000_000_000,
            decreases precision - width,
        {
            proof {
                let e = (width - digits) as nat;
                lemma_pow_step_bound(e);
                vstd::arithmetic::power::lemma_pow_increases(10, e + 1, 18);
                assert(value * pow(10, e + 1) == value * pow(10, e) * 10) by (nonlinear_arith)
                    requires
                        pow(10, e + 1) == 10 * pow(10, e),
                ;
                assert(0 <= value * pow(10, e + 1) <= value * pow(10, 18)) by (nonlinear_arith)
                    requires
                        1 <= pow(10, e + 1) <= pow(10, 18),
                        0 <= value,
                ;
            }
            scaled = scaled * 10;
            width += 1;
        }
    }
    scaled
}

/// Read a money amount in units of `PRECISION` decimal places.
///
/// The text holds, in this order and each optional: a sign, the currency
/// symbol, a sign, the whole units, and a decimal point with fraction
/// digits; white space may follow each but the units and the point. A
/// fraction with more digits than `PRECISION` is cut off. Only a single
/// minus sign is accepted.
pub fn money_from_str<const PRECISION: u32>(input: &str, symbol: &str) -> (amount: Result<
    i64,
    Error,
>)
    requires
        PRECISION <= 18,
    ensures
        match money_amount(input@, symbol@, PRECISION as nat) {
            Some(a) => amount matches Ok(value) && value == a,
            None => amount matches Err(e) && e@ == money_error(),
        },
{
    let text = chars_of(input);
    let mark = chars_of(symbol);
    let ghost parts = money_parts(text@, mark@);

    let signed_before = text.len() > 0 && (text[0] == '+' || text[0] == '-');
    let after_sign = if signed_before {
        skip_spaces(&text, 1)
    } else {
        0
    };
    let after_symbol = if starts_with(&text, after_sign, &mark) {
        skip_spaces(&text, after_sign + mark.len())
    } else {
        after_sign
    };
    let signed_after = after_symbol < text.len() && (text[after_symbol] == '+' || text[after_symbol] == '-');
    let whole_from = if signed_after {
        skip_spaces(&text, after_symbol + 1)
    } else {
        after_symbol
    };
    let whole_to = skip_digits(&text, whole_from);
    let point = whole_to < text.len() && text[whole_to] == '.';
    let fraction_to = if point {
        skip_digits(&text, whole_to + 1)
    } else {
        whole_to
    };
    let end = skip_spaces(&text, fraction_to);
    proof {
        assert(parts.whole_from == whole_from);
        assert(parts.whole_to == whole_to);
        assert(parts.point == point);
        assert(parts.fraction_to == fraction_to);
        assert(parts.end == end);
    }
    if end != text.len() {
        return Err(Error::new("error in money value"));
    }
    let whole = match parse_digits(&text, whole_from, whole_to) {
        Some(w) => w,
        None => {
            return Err(Error::new("error in money value"));
        },
    };
    let fraction: i64 = if point {
        match parse_digits(&text, whole_to + 1, fraction_to) {
            Some(f) => f,
            None => {
                return Err(Error::new("error in money value"));
            },
        }
    } else {
        proof {
            assert(text@.subrange(whole_to as int, whole_to as int) =~= Seq::<char>::empty());
        }
        0
    };
    let fraction_digits: usize = if point {
        fraction_to - (whole_to + 1)
    } else {
        0
    };
    let unit = pow10(PRECISION);
    let scaled = scale_fraction(fraction, fraction_digits, PRECISION);
    proof {
        lemma_pow_step_bound(PRECISION as nat);
        vstd::arithmetic::power::lemma_pow_increases(10, PRECISION as nat, 18);
        assert(whole * unit <= whole * pow(10, 18)) by (nonlinear_arith)
            requires
                unit <= pow(10, 18),
                0 <= whole,
        ;
        assert(0 <= whole * unit) by (nonlinear_arith)
            requires
                0 <= unit,
                0 <= whole,
        ;
        assert(whole * pow(10, 18) <= i64::MAX * pow(10, 18)) by (nonlinear_arith)
            requires
                whole <= i64::MAX,
                pow(10, 18) == 1_000_000_000_000_000_000,
        ;
        assert(fraction * pow(10, 18) <= i64::MAX * pow(10, 18)) by (nonlinear_arith)
            requires
                fraction <= i64::MAX,
                pow(10, 18) == 1_000_000_000_000_000_000,
        ;
    }
    let magnitude: i128 = (whole as i128) * (unit as i128) + scaled;
    let negative = match (signed_before, signed_after) {
        (true, false) => {
            if text[0] != '-' {
                return Err(Error::new("error in money value"));
            }
            true
        },
        (false, true) => {
            if text[after_symbol] != '-' {
                return Err(Error::new("error in money value"));
            }
            true
        },
        (false, false) => false,
        (true, true) => {
            return Err(Error::new("error in money value"));
        },
    };
    let signed: i128 = if negative {
        -magnitude
    } else {
        magnitude
    };
    if signed < i64::MIN as i128 || signed > i64::MAX as i128 {
        return Err(Error::new("error in money value"));
    }
    Ok(signed as i64)
}

/// Write a money amount in units of `PRECISION` decimal places: a minus
/// sign if it is negative, the symbol, the whole units, a decimal point and
/// `PRECISION` fraction digits.
pub fn money_to_str<const PRECISION: u32>(value: i64, symbol: &str) -> (text: String)
    requires
        PRECISION <= 18,
    ensures
        text@ == money_text(value as int, symbol@, PRECISION as nat),
{
    let magnitude: u64 = if value < 0 {
        ((-(value + 1)) as u64) + 1
    } else {
        value as u64
    };
    let unit = pow10(PRECISION);
    let mut digits: Vec<char> = Vec::new();
    push_decimal(&mut digits, magnitude / unit);
    digits.push('.');
    push_fixed_digits(&mut digits, magnitude % unit, PRECISION);
    let mut text = String::new();
    if value < 0 {
        text.push('-');
    }
    text.append(symbol);
    let text = push_chars(text, &digits);
    proof {
        assert(text@ =~= money_text(value as int, symbol@, PRECISION as nat));
    }
    text
}

/// Australian currency, in cents.
#[derive(Debug)]
pub struct AUD;

impl Quantity for AUD {
    type Repr = i64;

    open spec fn parsed(text: Seq<char>) -> Option<i64> {
        match money_amount(text, "$"@, 2) {
            Some(amount) => Some(amount as i64),
            None => None,
        }
    }

    open spec fn parse_error() -> Seq<char> {
        money_error()
    }

    open spec fn formatted(value: i64) -> Seq<char> {
        money_text(value as int, "$"@, 2)
    }

    fn parse(text: &str) -> (value: Result<i64, Error>) {
        money_from_str::<2>(text, "$")
    }

    fn format(value: &i64) -> (text: String) {
        money_to_str::<2>(*value, "$")
    }
}

/// US currency, in cents.
#[derive(Debug)]
pub struct USD;

impl Quantity for USD {
    type Repr = i64;

    open spec fn parsed(text: Seq<char>) -> Option<i64> {
        match money_amount(text, "$"@, 2) {
            Some(amount) => Some(amount as i64),
            None => None,
        }
    }

    open spec fn parse_error() -> Seq<char> {
        money_error()
    }

    open spec fn formatted(value: i64) -> Seq<char> {
        money_text(value as int, "$"@, 2)
    }

    fn parse(text: &str) -> (value: Result<i64, Error>) {
        money_from_str::<2>(text, "$")
    }

    fn format(value: &i64) -> (text: String) {
        money_to_str::<2>(*value, "$")
    }
}

/// A dollar currency that is not told apart further, in cents.
#[derive(Debug)]
pub struct Currency;

impl Quantity for Currency {
    type Repr = i64;

    open spec fn parsed(text: Seq<char>) -> Option<i64> {
        match money_amount(text, "$"@, 2) {
            Some(amount) => Some(amount as i64),
            None => None,
        }
    }

    open spec fn parse_error() -> Seq<char> {
        money_error()
    }

    open spec fn formatted(value: i64) -> Seq<char> {
        money_text(value as int, "$"@, 2)
    }

    fn parse(text: &str) -> (value: Result<i64, Error>) {
        money_from_str::<2>(text, "$")
    }

    fn format(value: &i64) -> (text: String) {
        money_to_str::<2>(*value, "$")
    }
}

/// Every amount of the dollar quantities is read back from its string form
/// unchanged.
pub proof fn lemma_dollars_round_trip(value: i64)
    ensures
        AUD::parsed(AUD::formatted(value)) == Some(value),
        USD::parsed(USD::formatted(value)) == Some(value),
        Currency::parsed(Currency::formatted(value)) == Some(value),
{
    reveal_strlit("$");
    lemma_money_round_trip(value as int, "$"@, 2);
}

} // verus!
