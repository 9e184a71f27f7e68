use furina::floats::{double_to_i32, reads_as_float};
use furina::numbers::{decimal_text, hex_lower_text, parse_i32, parse_unsigned, push_decimal, push_hex};
use furina::text::{is_before, joined, same_opt_text, same_text};

#[test]
fn decimal_notation_matches_std() {
    for n in [0i64, 7, 10, 99, 100, -1, -10, 123456789, i64::MAX, i64::MIN] {
        assert_eq!(decimal_text(n), n.to_string());
    }
    let mut out = String::from("n=");
    push_decimal(&mut out, u64::MAX);
    assert_eq!(out, format!("n={}", u64::MAX));
}

#[test]
fn hexadecimal_notation_matches_std() {
    for n in [0u64, 9, 10, 15, 16, 255, 256, 0xABCDEF, 0xFFFF_FFFF, 0x1_0000_0000, u64::MAX] {
        let mut out = String::new();
        push_hex(&mut out, n, 8);
        assert_eq!(out, format!("{:08X}", n));
        let mut plain = String::new();
        push_hex(&mut plain, n, 0);
        assert_eq!(plain, format!("{:X}", n));
    }
    assert_eq!(hex_lower_text(&[]), "");
    assert_eq!(hex_lower_text(&[0x00, 0x0f, 0xa0, 0xff]), "000fa0ff");
}

#[test]
fn integers_read_as_in_std() {
    let texts = [
        "", "+", "-", "0", "-0", "+0", "7", "+7", "-7", "007", "2147483647", "2147483648",
        "-2147483648", "-2147483649", "12a", " 1", "1 ", "--1", "+-1", "99999999999999999999999",
        "4294967296", "\u{0661}",
    ];
    for text in texts {
        assert_eq!(parse_i32(text), text.parse::<i32>().ok(), "{}", text);
        assert_eq!(
            parse_unsigned(text, u64::MAX),
            text.parse::<u64>().ok(),
            "{}",
            text
        );
        assert_eq!(
            parse_unsigned(text, 255),
            text.parse::<u8>().ok().map(|n| n as u64),
            "{}",
            text
        );
    }
    assert_eq!(parse_unsigned("18446744073709551615", u64::MAX), Some(u64::MAX));
    assert_eq!(parse_unsigned("18446744073709551616", u64::MAX), None);
}

#[test]
fn integers_read_back() {
    for n in [0i32, 1, -1, 10, -10, i32::MAX, i32::MIN] {
        assert_eq!(parse_i32(&decimal_text(n as i64)), Some(n));
    }
}

#[test]
fn doubles_convert_as_in_std() {
    let values = [
        0.0, -0.0, 0.5, -0.5, 0.999999, 1.0, -1.0, 1.5, -1.5, 2.0, 3.99, 100.7, -100.7, 65535.5,
        1048576.25, 2147483646.9, 2147483647.0, 2147483647.5, 2147483648.0, -2147483647.9,
        -2147483648.0, -2147483648.5, -2147483649.0, 1e10, -1e10, 1e300, -1e300, 1e-300,
        4503599627370496.0, 9007199254740993.0, f64::MAX, f64::MIN, f64::MIN_POSITIVE,
        f64::INFINITY, f64::NEG_INFINITY, f64::NAN, 5e-324,
    ];
    for v in values {
        assert_eq!(double_to_i32(f64::to_bits(v)), v as i32, "{}", v);
    }
    assert_eq!(double_to_i32(f64::to_bits(-7.75)), -7);
    let mut bits: u64 = 0x9E37_79B9_7F4A_7C15;
    for _ in 0..20000 {
        bits = bits.wrapping_mul(6364136223846793005).wrapping_add(1442695040888963407);
        assert_eq!(double_to_i32(bits), f64::from_bits(bits) as i32, "{:x}", bits);
        let near = (bits & 0x800F_FFFF_FFFF_FFFF) | ((1015 + (bits >> 52) % 60) << 52);
        assert_eq!(double_to_i32(near), f64::from_bits(near) as i32, "{:x}", near);
    }
}

#[test]
fn floating_point_texts_are_those_of_std() {
    let texts = [
        "", "+", "-", ".", "+.", "1", "+1", "-1", "1.", ".5", "1.5", "1..5", "1.5.", "1e5", "1E5",
        "1e+5", "1e-5", "1e", "1e+", "e5", ".e5", "5.e5", ".5e5", "inf", "-inf", "+INF", "Inf",
        "infinity", "INFINITY", "infinit", "nan", "NaN", "-nan", "nano", "1.5f", " 1", "1 ", "1_0",
        "0x10", "++1", "1e5.0", "1e400", "00012.3400", "i", "in", "\u{0130}nf",
    ];
    for text in texts {
        assert_eq!(reads_as_float(text), text.parse::<f32>().is_ok(), "{}", text);
    }
}

#[test]
fn texts_compare_as_in_std() {
    let texts = ["", "a", "b", "ab", "aa", "Z", "\u{e9}", "\u{20ac}", "\u{1f600}", "a\u{e9}"];
    for a in texts {
        for b in texts {
            assert_eq!(same_text(a, b), a == b);
            assert_eq!(is_before(a, b), a < b);
            assert_eq!(joined(a, b), format!("{}{}", a, b));
        }
    }
    assert!(same_opt_text(&None, &None));
    assert!(!same_opt_text(&None, &Some(String::new())));
    assert!(same_opt_text(&Some("x".to_string()), &Some("x".to_string())));
    assert!(!same_opt_text(&Some("x".to_string()), &Some("y".to_string())));
}
