//! What holds of numbers written as text, and of numbers read from text and from doubles.

use vstd::arithmetic::power::*;
use vstd::arithmetic::power2::*;
use vstd::prelude::*;

use crate::floats::{
    digit_run, double_as_i32, double_exponent, double_fraction, double_is_negative,
    double_magnitude, is_decimal_number, is_exponent, is_float_text, is_letter, is_word,
    unsigned_part,
};
use crate::messages::low_i32;
use crate::numbers::{
    all_digits, decimal, decimal_nat, digits_value, hex_lower, hex_lower_char, hex_nat,
    hex_upper_char, is_digit, lemma_decimal_reads_back, parsed_i32, parsed_unsigned, zero_padded,
};

verus! {

// ---------------------------------------------------------------------------------------------
// Decimal numbers
// ---------------------------------------------------------------------------------------------

/// Whether a text is made of decimal digits alone, one at least.
pub open spec fn is_digits(s: Seq<char>) -> bool {
    s.len() > 0 && forall|i: int| 0 <= i < s.len() ==> '0' <= #[trigger] s[i] <= '9'
}

/// A digit counts for its distance from zero.
pub proof fn lemma_digits_have_their_values(c: char)
    requires
        '0' <= c <= '9',
    ensures
        digits_value(seq![c]) == c as int - 48,
        digits_value(Seq::<char>::empty()) == 0,
{
    assert(seq![c].drop_last() =~= Seq::<char>::empty());
    assert(digits_value(seq![c].drop_last()) == 0);
}

/// Digits count by their place: those in front for ten times as much with each digit that follows.
pub proof fn lemma_digits_count_by_their_place(a: Seq<char>, b: Seq<char>)
    ensures
        digits_value(a + b) == digits_value(a) * pow(10, b.len()) + digits_value(b),
    decreases b.len(),
{
    reveal(pow);
    if b.len() == 0 {
        assert(a + b =~= a);
        lemma_pow0(10);
    } else {
        let front = b.drop_last();
        assert((a + b).drop_last() =~= a + front);
        assert((a + b).last() == b.last());
        lemma_digits_count_by_their_place(a, front);
        let p = pow(10, front.len());
        assert(pow(10, b.len()) == 10 * p);
        let v = digits_value(a) as int;
        assert((v * p) * 10 == v * (10 * p)) by (nonlinear_arith);
    }
}

/// A natural number is written in digits that stand for it, without needless zeros.
pub proof fn lemma_decimal_is_canonical(n: nat)
    ensures
        is_digits(decimal_nat(n)),
        digits_value(decimal_nat(n)) == n,
        decimal_nat(n).len() > 1 ==> decimal_nat(n).first() != '0',
    decreases n,
{
    lemma_decimal_reads_back(n);
    let s = decimal_nat(n);
    assert forall|i: int| 0 <= i < s.len() implies '0' <= #[trigger] s[i] <= '9' by {
        assert(is_digit(s[i]));
    }
    if n >= 10 {
        lemma_decimal_is_canonical(n / 10);
        assert(s.first() == decimal_nat(n / 10).first());
        if n / 10 < 10 {
            assert(decimal_nat(n / 10) == seq![(48 + n / 10) as char]);
        } else {
            lemma_decimal_is_canonical(n / 10 / 10);
            assert(decimal_nat(n / 10).len() > 1);
        }
    }
}

/// A minus sign stands before the digits of a negative number, and no sign before those of another.
pub proof fn lemma_negative_numbers_have_a_sign(n: nat)
    ensures
        decimal(n as int) == decimal_nat(n),
        n > 0 ==> decimal(-(n as int)) == seq!['-'] + decimal_nat(n),
{
}

proof fn lemma_is_digits(s: Seq<char>)
    ensures
        is_digits(s) <==> all_digits(s),
{
    if is_digits(s) {
        assert forall|i: int| 0 <= i < s.len() implies is_digit(s[i]) by {
            assert('0' <= s[i] <= '9');
        }
    }
    if all_digits(s) {
        assert forall|i: int| 0 <= i < s.len() implies '0' <= #[trigger] s[i] <= '9' by {
            assert(is_digit(s[i]));
        }
    }
}

/// Digits read as the number that they stand for, with or without a plus sign in front, unless
/// that exceeds the limit; with a minus sign they read as the negative number.
pub proof fn lemma_digits_are_read(digits: Seq<char>, max: nat)
    requires
        is_digits(digits),
    ensures
        ({
            let n = digits_value(digits);
            let unsigned = if n <= max {
                Some(n)
            } else {
                None
            };
            let positive = if n <= 0x7fff_ffff {
                Some(n as i32)
            } else {
                None
            };
            let negative = if n <= 0x8000_0000 {
                Some((-n) as i32)
            } else {
                None
            };
            &&& parsed_unsigned(digits, max) == unsigned
            &&& parsed_unsigned(seq!['+'] + digits, max) == unsigned
            &&& parsed_i32(digits) == positive
            &&& parsed_i32(seq!['+'] + digits) == positive
            &&& parsed_i32(seq!['-'] + digits) == negative
        }),
{
    lemma_is_digits(digits);
    assert('0' <= digits[0] <= '9');
    assert((seq!['+'] + digits).drop_first() =~= digits);
    assert((seq!['-'] + digits).drop_first() =~= digits);
    assert((seq!['+'] + digits).first() == '+');
    assert((seq!['-'] + digits).first() == '-');
}

/// Nothing but digits, with a sign in front or without one, reads as a number; and an unsigned
/// number has no minus sign.
pub proof fn lemma_only_digits_are_read(s: Seq<char>, max: nat)
    ensures
        parsed_unsigned(s, max) is Some ==> is_digits(s) || (s.len() > 0 && s.first() == '+'
            && is_digits(s.drop_first())),
        parsed_i32(s) is Some ==> is_digits(s) || (s.len() > 0 && (s.first() == '+' || s.first()
            == '-') && is_digits(s.drop_first())),
{
    lemma_is_digits(s);
    if s.len() > 0 {
        lemma_is_digits(s.drop_first());
    }
}

// ---------------------------------------------------------------------------------------------
// Hexadecimal numbers
// ---------------------------------------------------------------------------------------------

/// The hexadecimal digits in order, upper case.
pub open spec fn upper_digits() -> Seq<char> {
    seq!['0', '1', '2', '3', '4', '5', '6', '7', '8', '9', 'A', 'B', 'C', 'D', 'E', 'F']
}

/// The hexadecimal digits in order, lower case.
pub open spec fn lower_digits() -> Seq<char> {
    seq!['0', '1', '2', '3', '4', '5', '6', '7', '8', '9', 'a', 'b', 'c', 'd', 'e', 'f']
}

proof fn lemma_hex_chars(d: int)
    requires
        0 <= d < 16,
    ensures
        hex_upper_char(d) == upper_digits()[d],
        hex_lower_char(d) == lower_digits()[d],
{
}

/// Each byte is written in two lower case digits, the higher one first, in the order of the bytes.
pub proof fn lemma_bytes_are_written_in_two_digits(bytes: Seq<u8>, i: int)
    requires
        0 <= i < bytes.len(),
    ensures
        hex_lower(bytes).len() == 2 * bytes.len(),
        hex_lower(bytes)[2 * i] == lower_digits()[bytes[i] as int / 16],
        hex_lower(bytes)[2 * i + 1] == lower_digits()[bytes[i] as int % 16],
        hex_lower(Seq::<u8>::empty()) == Seq::<char>::empty(),
    decreases bytes.len(),
{
    let front = bytes.drop_last();
    assert(hex_lower(Seq::<u8>::empty()) =~= Seq::<char>::empty());
    if front.len() == 0 {
        assert(front =~= Seq::<u8>::empty());
    } else {
        lemma_bytes_are_written_in_two_digits(front, if i < front.len() {
            i
        } else {
            0
        });
    }
    lemma_hex_chars((bytes[i] / 16) as int);
    lemma_hex_chars((bytes[i] % 16) as int);
}

/// A number is written in hexadecimal digits by place, with zeros in front where a width is asked
/// for: the digit with `k` digits behind it is that for sixteen to the power `k`.
pub proof fn lemma_hex_digits_stand_by_place(n: nat, width: nat, k: nat)
    requires
        n < pow(16, width),
        k < width,
    ensures
        zero_padded(hex_nat(n), width).len() == width,
        zero_padded(hex_nat(n), width)[width - 1 - k] == upper_digits()[(n as int / pow(16, k))
            % 16],
    decreases width,
{
    reveal(pow);
    lemma_pow_positive(16, k);
    let text = zero_padded(hex_nat(n), width);
    if n < 16 {
        lemma_hex_chars(n as int);
        if k == 0 {
            lemma_pow0(16);
            assert(n as int / 1 == n);
        } else {
            lemma_pow_increases(16, 1, k);
            lemma_pow1(16);
            assert(n as int / pow(16, k) == 0) by (nonlinear_arith)
                requires
                    0 <= n < 16,
                    pow(16, k) >= 16,
            ;
        }
    } else {
        if width == 1 {
            lemma_pow1(16);
        }
        let rest = n / 16;
        let w = (width - 1) as nat;
        assert(pow(16, width) == 16 * pow(16, w));
        assert(rest < pow(16, w));
        lemma_hex_digits_stand_by_place(rest, w, if k > 0 {
            (k - 1) as nat
        } else {
            0
        });
        lemma_hex_chars((n % 16) as int);
        assert(text =~= zero_padded(hex_nat(rest), w).push(hex_upper_char((n % 16) as int)));
        if k == 0 {
            lemma_pow0(16);
            assert(n as int / 1 == n);
        } else {
            let p = pow(16, (k - 1) as nat);
            lemma_pow_positive(16, (k - 1) as nat);
            assert(pow(16, k) == 16 * p);
            vstd::arithmetic::div_mod::lemma_div_denominator(n as int, 16, p);
        }
    }
}

/// Digits are written without needless zeros, and a width never cuts any off.
pub proof fn lemma_hex_is_canonical(n: nat, width: nat)
    ensures
        hex_nat(n).len() > 0,
        n < pow(16, hex_nat(n).len()),
        hex_nat(n).len() > 1 ==> n >= pow(16, (hex_nat(n).len() - 1) as nat),
        hex_nat(n).len() >= width ==> zero_padded(hex_nat(n), width) == hex_nat(n),
    decreases n,
{
    reveal(pow);
    lemma_pow1(16);
    if n >= 16 {
        lemma_hex_is_canonical(n / 16, width);
        let len = hex_nat(n / 16).len();
        assert(hex_nat(n).len() == len + 1);
        assert(pow(16, len + 1) == 16 * pow(16, len));
        if len > 1 {
            assert(pow(16, len) == 16 * pow(16, (len - 1) as nat));
        }
    }
}

// ---------------------------------------------------------------------------------------------
// Wide integers and doubles as 32-bit integers
// ---------------------------------------------------------------------------------------------

/// A wide integer is cut to the 32-bit integer that differs from it by a multiple of `2^32`.
pub proof fn lemma_wide_integers_are_cut(n: int)
    ensures
        (n - low_i32(n)) % 0x1_0000_0000 == 0,
        i32::MIN <= n <= i32::MAX ==> low_i32(n) == n,
{
}

/// A double below one in absolute value converts to zero, and so does what is not a number. One
/// from `2^(e - 1023)` on, with a significand of 53 bits, converts to its integer part, or to the
/// end of the range that it exceeds, as infinity does.
pub proof fn lemma_doubles_are_rounded_towards_zero(negative: bool, exponent: int, fraction: int)
    requires
        0 <= exponent < 0x800,
        0 <= fraction < 0x10_0000_0000_0000,
    ensures
        ({
            let sign = if negative {
                0x8000_0000_0000_0000
            } else {
                0int
            };
            let r = double_as_i32((sign + 0x10_0000_0000_0000 * exponent + fraction) as u64);
            let magnitude = if negative {
                -r
            } else {
                r as int
            };
            let end = if negative {
                0x8000_0000
            } else {
                0x7fff_ffffint
            };
            let significand = 0x10_0000_0000_0000 + fraction;
            &&& 0 <= magnitude <= end
            &&& exponent < 1023 ==> r == 0
            &&& exponent == 0x7ff && fraction != 0 ==> r == 0
            &&& exponent == 0x7ff && fraction == 0 ==> magnitude == end
            &&& 1075 < exponent < 0x7ff ==> magnitude == end
            &&& 1023 <= exponent <= 1075 ==> {
                let unit = pow2((1075 - exponent) as nat);
                &&& magnitude * unit <= significand
                &&& magnitude == end || significand < (magnitude + 1) * unit
            }
        }),
{
    let sign = if negative {
        0x8000_0000_0000_0000
    } else {
        0int
    };
    let bits = (sign + 0x10_0000_0000_0000 * exponent + fraction) as u64;
    assert(bits == sign + 0x10_0000_0000_0000 * exponent + fraction);
    assert(double_is_negative(bits) == negative);
    assert(double_exponent(bits) == exponent);
    assert(double_fraction(bits) == fraction);
    let significand = 0x10_0000_0000_0000 + fraction;
    if 1023 <= exponent <= 1075 {
        let unit = pow2((1075 - exponent) as nat) as int;
        lemma_pow2_pos((1075 - exponent) as nat);
        let q = significand / unit;
        assert(q == double_magnitude(bits));
        assert(q * unit <= significand < (q + 1) * unit && 0 <= q) by (nonlinear_arith)
            requires
                q == significand / unit,
                unit > 0,
                significand >= 0,
        ;
        let r = double_as_i32(bits);
        let m = if negative {
            -r
        } else {
            r as int
        };
        assert(m <= q);
        assert(m * unit <= q * unit) by (nonlinear_arith)
            requires
                m <= q,
                unit > 0,
        ;
    } else if 1075 < exponent < 0x7ff {
        lemma_pow2_pos((exponent - 1075) as nat);
        let p = pow2((exponent - 1075) as nat) as int;
        assert(significand * p > 0x8000_0000) by (nonlinear_arith)
            requires
                p >= 1,
                significand >= 0x10_0000_0000_0000,
        ;
    }
}

// ---------------------------------------------------------------------------------------------
// Floating-point numbers as text
// ---------------------------------------------------------------------------------------------

/// Whether a text is empty or a sign.
pub open spec fn is_sign(s: Seq<char>) -> bool {
    s.len() == 0 || s == seq!['+'] || s == seq!['-']
}

/// Whether a text is empty or made of decimal digits.
pub open spec fn no_or_digits(s: Seq<char>) -> bool {
    s.len() == 0 || is_digits(s)
}

/// Whether a text is empty or an exponent: `e`, an optional sign and digits.
pub open spec fn no_or_exponent(s: Seq<char>) -> bool {
    s.len() == 0 || exists|e: char, sign: Seq<char>, digits: Seq<char>|
        (e == 'e' || e == 'E') && is_sign(sign) && is_digits(digits) && s == #[trigger] (seq![e]
            + sign + digits)
}

proof fn lemma_digit_run(digits: Seq<char>, rest: Seq<char>)
    requires
        no_or_digits(digits),
        rest.len() > 0 ==> !is_digit(rest.first()),
    ensures
        digit_run(digits + rest) == digits.len(),
    decreases digits.len(),
{
    let s = digits + rest;
    if digits.len() == 0 {
        assert(s =~= rest);
    } else {
        assert('0' <= digits[0] <= '9');
        assert(s.first() == digits[0]);
        let tail = digits.drop_first();
        assert forall|i: int| 0 <= i < tail.len() implies '0' <= #[trigger] tail[i] <= '9' by {
            assert(tail[i] == digits[i + 1]);
        }
        assert(s.drop_first() =~= tail + rest);
        lemma_digit_run(tail, rest);
    }
}

proof fn lemma_run_splits(s: Seq<char>)
    ensures
        digit_run(s) <= s.len(),
        no_or_digits(s.take(digit_run(s) as int)),
        digit_run(s) < s.len() ==> !is_digit(s[digit_run(s) as int]),
    decreases s.len(),
{
    if s.len() > 0 && is_digit(s.first()) {
        let rest = s.drop_first();
        lemma_run_splits(rest);
        let n = digit_run(rest) as int;
        let head = s.take(n + 1);
        assert forall|i: int| 0 <= i < head.len() implies '0' <= #[trigger] head[i] <= '9' by {
            if i > 0 {
                assert(head[i] == rest.take(n)[i - 1]);
            }
        }
    }
}

proof fn lemma_exponent(s: Seq<char>)
    requires
        no_or_exponent(s),
    ensures
        s.len() == 0 || is_exponent(s),
        s.len() > 0 ==> !is_digit(s.first()) && s.first() != '.',
{
    if s.len() > 0 {
        let (e, sign, digits) = choose|e: char, sign: Seq<char>, digits: Seq<char>|
            (e == 'e' || e == 'E') && is_sign(sign) && is_digits(digits) && s == #[trigger] (seq![e]
                + sign + digits);
        assert(s.drop_first() =~= sign + digits);
        assert('0' <= digits[0] <= '9');
        lemma_is_digits(digits);
        if sign.len() == 0 {
            assert(sign + digits =~= digits);
        } else {
            assert((sign + digits).drop_first() =~= digits);
            assert((sign + digits).first() == sign[0]);
        }
    }
}

/// A decimal number reads as a floating-point number: an optional sign, digits before or behind a
/// point or both, or digits without a point, and an optional exponent.
pub proof fn lemma_decimal_numbers_are_float_texts(
    sign: Seq<char>,
    whole: Seq<char>,
    pointed: bool,
    places: Seq<char>,
    exponent: Seq<char>,
)
    requires
        is_sign(sign),
        no_or_digits(whole),
        no_or_digits(places),
        !pointed ==> places.len() == 0,
        whole.len() + places.len() > 0,
        no_or_exponent(exponent),
    ensures
        ({
            let point = if pointed {
                seq!['.']
            } else {
                Seq::<char>::empty()
            };
            is_float_text(sign + whole + point + places + exponent)
        }),
{
    let point = if pointed {
        seq!['.']
    } else {
        Seq::<char>::empty()
    };
    let body = whole + point + places + exponent;
    let s = sign + whole + point + places + exponent;
    assert(s =~= sign + body);
    lemma_exponent(exponent);
    if whole.len() > 0 {
        assert('0' <= whole[0] <= '9');
        assert(body.first() == whole[0]);
    } else {
        assert(body.first() == '.');
    }
    if sign.len() == 0 {
        assert(s =~= body);
    } else {
        assert(s.first() == sign[0]);
        assert(s.drop_first() =~= body);
    }
    assert(unsigned_part(s) == body);
    let after = point + places + exponent;
    assert(body =~= whole + after);
    if pointed {
        assert(after.first() == '.');
        assert(after.drop_first() =~= places + exponent);
        lemma_digit_run(places, exponent);
        assert((places + exponent).skip(places.len() as int) =~= exponent);
    } else {
        assert(after =~= exponent);
    }
    lemma_digit_run(whole, after);
    assert(body.skip(whole.len() as int) =~= after);
    assert(is_decimal_number(body));
}

/// The words for infinity and for what is not a number read as floating-point numbers, with a sign
/// or without one, their letters in either case.
pub proof fn lemma_words_are_float_texts(sign: Seq<char>, body: Seq<char>, word: Seq<char>)
    requires
        is_sign(sign),
        word == seq!['i', 'n', 'f'] || word == seq!['i', 'n', 'f', 'i', 'n', 'i', 't', 'y'] || word
            == seq!['n', 'a', 'n'],
        body.len() == word.len(),
        forall|i: int|
            0 <= i < body.len() ==> #[trigger] body[i] == word[i] || body[i] as int + 32
                == word[i] as int,
    ensures
        is_float_text(sign + body),
{
    let s = sign + body;
    assert(body[0] == word[0] || body[0] as int + 32 == word[0] as int);
    if sign.len() == 0 {
        assert(s =~= body);
    } else {
        assert(s.first() == sign[0]);
        assert(s.drop_first() =~= body);
    }
    assert(unsigned_part(s) == body);
    assert forall|i: int| 0 <= i < body.len() implies is_letter(#[trigger] body[i], word[i]) by {}
    assert(is_word(body, word));
}

/// Whether a text is one of the words for infinity and for what is not a number.
pub open spec fn is_float_word(body: Seq<char>) -> bool {
    exists|word: Seq<char>|
        (word == seq!['i', 'n', 'f'] || word == seq!['i', 'n', 'f', 'i', 'n', 'i', 't', 'y'] || word
            == seq!['n', 'a', 'n']) && #[trigger] same_letters(body, word)
}

/// Whether `body` is the lower case word `word` in any mixture of cases.
pub open spec fn same_letters(body: Seq<char>, word: Seq<char>) -> bool {
    body.len() == word.len() && forall|i: int|
        0 <= i < body.len() ==> #[trigger] body[i] == word[i] || body[i] as int + 32
            == word[i] as int
}

/// Whether a text is a decimal number without a sign: digits with at most one point, and an
/// optional exponent.
pub open spec fn is_float_number(body: Seq<char>) -> bool {
    exists|whole: Seq<char>, point: Seq<char>, places: Seq<char>, exponent: Seq<char>|
        no_or_digits(whole) && no_or_digits(places) && whole.len() + places.len() > 0
            && no_or_exponent(exponent) && (point == seq!['.'] || (point.len() == 0 && places.len()
            == 0)) && body == #[trigger] (whole + point + places + exponent)
}

proof fn lemma_word(body: Seq<char>, word: Seq<char>)
    requires
        is_word(body, word),
    ensures
        same_letters(body, word),
{
    assert forall|i: int| 0 <= i < body.len() implies #[trigger] body[i] == word[i] || body[i] as int
        + 32 == word[i] as int by {
        assert(is_letter(body[i], word[i]));
    }
}

proof fn lemma_tail(tail: Seq<char>)
    requires
        tail.len() == 0 || is_exponent(tail),
    ensures
        no_or_exponent(tail),
{
    if tail.len() > 0 {
        let e = tail.first();
        let after = tail.drop_first();
        let digits = unsigned_part(after);
        lemma_is_digits(digits);
        let mark = if digits.len() < after.len() {
            seq![after.first()]
        } else {
            Seq::<char>::empty()
        };
        assert(after =~= mark + digits);
        assert(tail =~= seq![e] + mark + digits);
    }
}

proof fn lemma_number(body: Seq<char>)
    requires
        is_decimal_number(body),
    ensures
        is_float_number(body),
{
    lemma_run_splits(body);
    let n = digit_run(body) as int;
    let whole = body.take(n);
    let rest = body.skip(n);
    if rest.len() > 0 && rest.first() == '.' {
        let after = rest.drop_first();
        lemma_run_splits(after);
        let k = digit_run(after) as int;
        let places = after.take(k);
        let tail = after.skip(k);
        lemma_tail(tail);
        assert(body =~= whole + seq!['.'] + places + tail);
    } else {
        let none = Seq::<char>::empty();
        lemma_tail(rest);
        assert(body =~= whole + none + none + rest);
    }
}

/// Nothing else reads as a floating-point number.
pub proof fn lemma_float_texts_are_numbers_or_words(s: Seq<char>)
    requires
        is_float_text(s),
    ensures
        exists|sign: Seq<char>, body: Seq<char>|
            is_sign(sign) && s == #[trigger] (sign + body) && (is_float_word(body)
                || is_float_number(body)),
{
    let body = unsigned_part(s);
    let sign = if body.len() < s.len() {
        seq![s.first()]
    } else {
        Seq::<char>::empty()
    };
    assert(s =~= sign + body);
    if is_word(body, seq!['i', 'n', 'f']) {
        lemma_word(body, seq!['i', 'n', 'f']);
    } else if is_word(body, seq!['i', 'n', 'f', 'i', 'n', 'i', 't', 'y']) {
        lemma_word(body, seq!['i', 'n', 'f', 'i', 'n', 'i', 't', 'y']);
    } else if is_word(body, seq!['n', 'a', 'n']) {
        lemma_word(body, seq!['n', 'a', 'n']);
    } else {
        lemma_number(body);
    }
}

} // verus!
