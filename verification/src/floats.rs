//! Floating-point values as the messages carry them: as the bits of a double, or as text.

use vstd::arithmetic::power2::*;
use vstd::bits::*;
use vstd::prelude::*;

use crate::numbers::{all_digits, chars_of, is_digit};

verus! {

// ---------------------------------------------------------------------------------------------
// Doubles
// ---------------------------------------------------------------------------------------------

/// Whether the double with these bits has its sign bit set.
pub open spec fn double_is_negative(bits: u64) -> bool {
    bits >= 0x8000_0000_0000_0000
}

/// The biased exponent of a double.
pub open spec fn double_exponent(bits: u64) -> int {
    (bits / 0x10_0000_0000_0000) as int % 0x800
}

/// The fraction bits of a double.
pub open spec fn double_fraction(bits: u64) -> int {
    bits as int % 0x10_0000_0000_0000
}

/// The integer part of the absolute value of a finite double: it stands for
/// `(2^52 + fraction) * 2^(exponent - 1075)`, or for less than one where the exponent is below
/// 1023.
pub open spec fn double_magnitude(bits: u64) -> int {
    let exponent = double_exponent(bits);
    let significand = 0x10_0000_0000_0000 + double_fraction(bits);
    if exponent < 1023 {
        0
    } else if exponent <= 1075 {
        significand / pow2((1075 - exponent) as nat) as int
    } else {
        significand * pow2((exponent - 1075) as nat)
    }
}

/// A double converted to a 32-bit integer: rounded towards zero, saturated at either end, and
/// zero for what is not a number.
pub open spec fn double_as_i32(bits: u64) -> i32 {
    let negative = double_is_negative(bits);
    let infinite = double_exponent(bits) == 0x7ff;
    if infinite && double_fraction(bits) != 0 {
        0
    } else if negative {
        if infinite || double_magnitude(bits) > 0x8000_0000 {
            i32::MIN
        } else {
            (-double_magnitude(bits)) as i32
        }
    } else if infinite || double_magnitude(bits) > i32::MAX {
        i32::MAX
    } else {
        double_magnitude(bits) as i32
    }
}

proof fn lemma_large_magnitude(bits: u64)
    requires
        1054 <= double_exponent(bits) < 0x7ff,
    ensures
        double_magnitude(bits) >= 0x8000_0000,
{
    let exponent = double_exponent(bits);
    let significand = 0x10_0000_0000_0000 + double_fraction(bits);
    lemma2_to64();
    lemma2_to64_rest();
    if exponent <= 1075 {
        let shift = (1075 - exponent) as nat;
        if shift < 21 {
            lemma_pow2_strictly_increases(shift, 21);
        }
        lemma_pow2_pos(shift);
        let p = pow2(shift) as int;
        assert(significand / p >= 0x8000_0000) by (nonlinear_arith)
            requires
                0 < p <= 0x20_0000,
                significand >= 0x10_0000_0000_0000,
        ;
    } else {
        lemma_pow2_pos((exponent - 1075) as nat);
        let p = pow2((exponent - 1075) as nat) as int;
        assert(significand * p >= 0x8000_0000) by (nonlinear_arith)
            requires
                p >= 1,
                significand >= 0x10_0000_0000_0000,
        ;
    }
}

proof fn lemma_small_magnitude(significand: u64, shift: u64)
    requires
        0x10_0000_0000_0000 <= significand < 0x20_0000_0000_0000,
        22 <= shift <= 52,
    ensures
        significand >> shift == significand as int / pow2(shift as nat) as int,
        (significand >> shift) < 0x8000_0000,
{
    lemma_u64_shr_is_div(significand, shift);
    assert((significand >> shift) < 0x8000_0000) by (bit_vector)
        requires
            significand < 0x20_0000_0000_0000,
            22 <= shift <= 52,
    ;
}

/// Converts the double with these bits to a 32-bit integer.
pub fn double_to_i32(bits: u64) -> (r: i32)
    ensures
        r == double_as_i32(bits),
{
    let negative = bits >= 0x8000_0000_0000_0000;
    let exponent: u64 = (bits / 0x10_0000_0000_0000) % 0x800;
    let fraction: u64 = bits % 0x10_0000_0000_0000;
    if exponent == 0x7ff && fraction != 0 {
        0
    } else if exponent < 1023 {
        0
    } else if exponent >= 1054 {
        proof {
            if exponent < 0x7ff {
                lemma_large_magnitude(bits);
            }
        }
        if negative {
            i32::MIN
        } else {
            i32::MAX
        }
    } else {
        let significand: u64 = 0x10_0000_0000_0000 + fraction;
        let shift: u64 = 1075 - exponent;
        proof {
            lemma_small_magnitude(significand, shift);
        }
        let magnitude: u64 = significand >> shift;
        if negative {
            -(magnitude as i32)
        } else {
            magnitude as i32
        }
    }
}

// ---------------------------------------------------------------------------------------------
// Floating-point numbers as text
// ---------------------------------------------------------------------------------------------

/// The number of decimal digits that `s` begins with.
pub open spec fn digit_run(s: Seq<char>) -> nat
    decreases s.len(),
{
    if s.len() > 0 && is_digit(s.first()) {
        1 + digit_run(s.drop_first())
    } else {
        0
    }
}

/// `s` without the sign that it may begin with.
pub open spec fn unsigned_part(s: Seq<char>) -> Seq<char> {
    if s.len() > 0 && (s.first() == '+' || s.first() == '-') {
        s.drop_first()
    } else {
        s
    }
}

/// An exponent: `e` in either case, an optional sign, and digits.
pub open spec fn is_exponent(s: Seq<char>) -> bool {
    &&& s.len() > 0
    &&& s.first() == 'e' || s.first() == 'E'
    &&& all_digits(unsigned_part(s.drop_first()))
}

/// Digits with at most one point among or around them, and an optional exponent.
pub open spec fn is_decimal_number(s: Seq<char>) -> bool {
    let whole = digit_run(s);
    let rest = s.skip(whole as int);
    let pointed = rest.len() > 0 && rest.first() == '.';
    let places = if pointed {
        digit_run(rest.drop_first())
    } else {
        0
    };
    let tail = if pointed {
        rest.drop_first().skip(places as int)
    } else {
        rest
    };
    &&& whole + places > 0
    &&& tail.len() == 0 || is_exponent(tail)
}

/// Whether `c` is the letter `lower` in either case, for a lower case letter `lower`.
pub open spec fn is_letter(c: char, lower: char) -> bool {
    c == lower || c as int + 32 == lower as int
}

/// Whether `s` is the lower case word `word` with its letters in either case.
pub open spec fn is_word(s: Seq<char>, word: Seq<char>) -> bool {
    s.len() == word.len() && forall|i: int|
        0 <= i < s.len() ==> is_letter(#[trigger] s[i], word[i])
}

/// The texts that read as a floating-point number: an optional sign, and then a decimal number,
/// or one of the words for infinity and for what is not a number.
pub open spec fn is_float_text(s: Seq<char>) -> bool {
    let body = unsigned_part(s);
    ||| is_word(body, seq!['i', 'n', 'f'])
    ||| is_word(body, seq!['i', 'n', 'f', 'i', 'n', 'i', 't', 'y'])
    ||| is_word(body, seq!['n', 'a', 'n'])
    ||| is_decimal_number(body)
}

fn skip_digits(cs: &Vec<char>, from: usize) -> (r: usize)
    requires
        from <= cs@.len(),
    ensures
        from <= r <= cs@.len(),
        r - from == digit_run(cs@.skip(from as int)),
{
    let mut i: usize = from;
    while i < cs.len() && cs[i] >= '0' && cs[i] <= '9'
        invariant
            from <= i <= cs@.len(),
            digit_run(cs@.skip(from as int)) == i - from + digit_run(cs@.skip(i as int)),
        decreases cs@.len() - i,
    {
        assert(cs@.skip(i as int).drop_first() =~= cs@.skip(i + 1));
        i = i + 1;
    }
    i
}

fn all_digits_from(cs: &Vec<char>, from: usize) -> (r: bool)
    requires
        from <= cs@.len(),
    ensures
        r == all_digits(cs@.skip(from as int)),
{
    let mut i: usize = from;
    let ghost s = cs@.skip(from as int);
    while i < cs.len()
        invariant
            from <= i <= cs@.len(),
            s == cs@.skip(from as int),
            forall|j: int| 0 <= j < i - from ==> is_digit(s[j]),
        decreases cs@.len() - i,
    {
        if !(cs[i] >= '0' && cs[i] <= '9') {
            assert(!is_digit(s[i - from]));
            return false;
        }
        i = i + 1;
    }
    from < cs.len()
}

fn skip_sign(cs: &Vec<char>, from: usize) -> (r: usize)
    requires
        from <= cs@.len(),
    ensures
        from <= r <= cs@.len(),
        cs@.skip(r as int) == unsigned_part(cs@.skip(from as int)),
{
    if from < cs.len() && (cs[from] == '+' || cs[from] == '-') {
        assert(cs@.skip(from as int).drop_first() =~= cs@.skip(from + 1));
        from + 1
    } else {
        from
    }
}

fn decimal_number_from(cs: &Vec<char>, from: usize) -> (r: bool)
    requires
        from <= cs@.len(),
    ensures
        r == is_decimal_number(cs@.skip(from as int)),
{
    let ghost s = cs@.skip(from as int);
    let point = skip_digits(cs, from);
    let mut places: usize = 0;
    let mut end = point;
    assert(s.skip(point - from) =~= cs@.skip(point as int));
    if point < cs.len() && cs[point] == '.' {
        assert(cs@.skip(point as int).drop_first() =~= cs@.skip(point + 1));
        end = skip_digits(cs, point + 1);
        places = end - (point + 1);
        assert(cs@.skip(point + 1).skip(places as int) =~= cs@.skip(end as int));
    }
    if point == from && places == 0 {
        return false;
    }
    if end == cs.len() {
        return true;
    }
    if cs[end] != 'e' && cs[end] != 'E' {
        return false;
    }
    assert(cs@.skip(end as int).drop_first() =~= cs@.skip(end + 1));
    let digits = skip_sign(cs, end + 1);
    all_digits_from(cs, digits)
}

fn word_from(cs: &Vec<char>, from: usize, word: &[char]) -> (r: bool)
    requires
        from <= cs@.len(),
        forall|i: int| 0 <= i < word@.len() ==> 'a' <= #[trigger] word@[i] <= 'z',
    ensures
        r == is_word(cs@.skip(from as int), word@),
{
    let ghost s = cs@.skip(from as int);
    if cs.len() - from != word.len() {
        return false;
    }
    let mut i: usize = 0;
    while i < word.len()
        invariant
            i <= word@.len(),
            from + word@.len() == cs.len(),
            s == cs@.skip(from as int),
            forall|j: int| 0 <= j < word@.len() ==> 'a' <= #[trigger] word@[j] <= 'z',
            forall|j: int| 0 <= j < i ==> is_letter(#[trigger] s[j], word@[j]),
        decreases word@.len() - i,
    {
        let c = cs[from + i];
        assert(s[i as int] == c);
        let upper = (word[i] as u8 - 32) as char;
        if c != word[i] && c != upper {
            assert(!is_letter(s[i as int], word@[i as int]));
            return false;
        }
        assert(is_letter(s[i as int], word@[i as int]));
        i = i + 1;
    }
    true
}

/// Whether `s` reads as a floating-point number.
pub fn reads_as_float(s: &str) -> (r: bool)
    ensures
        r == is_float_text(s@),
{
    let cs = chars_of(s);
    assert(cs@.skip(0) =~= cs@);
    let from = skip_sign(&cs, 0);
    let inf = ['i', 'n', 'f'];
    let infinity = ['i', 'n', 'f', 'i', 'n', 'i', 't', 'y'];
    let nan = ['n', 'a', 'n'];
    assert(inf@ =~= seq!['i', 'n', 'f']);
    assert(infinity@ =~= seq!['i', 'n', 'f', 'i', 'n', 'i', 't', 'y']);
    assert(nan@ =~= seq!['n', 'a', 'n']);
    word_from(&cs, from, inf.as_slice()) || word_from(&cs, from, infinity.as_slice())
        || word_from(&cs, from, nan.as_slice()) || decimal_number_from(&cs, from)
}

} // verus!
