use unitctl::number::{Binary64, FloatText};
use unitctl::text::{
    char_is_space, contains_text, decimal_text, ends_with, lines_of, parse_i64, parse_unsigned,
    same_text, signed_decimal_text, split_at_char, starts_with, trim,
};

const SAMPLES: [&str; 14] = [
    "",
    " ",
    "a",
    " a ",
    "\u{a0}\u{2003}x y\u{3000}\n",
    "a\nb",
    "a\r\nb\r\n",
    "\n",
    "\r",
    "a\r\r\n\nb\r",
    "x,y,,z",
    ",",
    "\u{200b}z\u{200b}",
    "\u{85}\u{1680}q\u{2028}\u{202f}\u{205f}",
];

#[test]
fn trimming_agrees_with_std() {
    for s in SAMPLES {
        assert_eq!(trim(s), s.trim());
        assert_eq!(trim(trim(s).as_str()), trim(s));
        assert_eq!(trim(format!("{}\n", s).as_str()), trim(s));
    }
}

#[test]
fn white_space_agrees_with_std() {
    for code in 0..0x11_0000u32 {
        if let Some(c) = char::from_u32(code) {
            assert_eq!(char_is_space(c), c.is_whitespace());
        }
    }
}

#[test]
fn splitting_agrees_with_std() {
    for s in SAMPLES {
        assert_eq!(split_at_char(s, ','), s.split(',').collect::<Vec<_>>());
        assert_eq!(lines_of(s), s.lines().collect::<Vec<_>>());
    }
}

#[test]
fn joined_pieces_come_apart() {
    assert_eq!(split_at_char("left,right", ','), vec!["left", "right"]);
    assert_eq!(split_at_char("whole", ','), vec!["whole"]);
}

#[test]
fn searching_agrees_with_std() {
    for s in SAMPLES {
        for part in SAMPLES {
            assert_eq!(contains_text(s, part), s.contains(part));
            assert_eq!(starts_with(s, part), s.starts_with(part));
            assert_eq!(ends_with(s, part), s.ends_with(part));
            assert_eq!(same_text(s, part), s == part);
        }
    }
}

#[test]
fn decimals_agree_with_std() {
    for n in [0u128, 7, 10, 99, 100, 65535, u64::MAX as u128, u128::MAX] {
        assert_eq!(decimal_text(n), n.to_string());
    }
    for n in [0i64, -1, 42, -105, i64::MIN, i64::MAX] {
        assert_eq!(signed_decimal_text(n), n.to_string());
    }
}

#[test]
fn integers_agree_with_std() {
    for s in [
        "", "+", "-", "0", "007", "+5", "-5", "5 ", "255", "256", "18446744073709551615",
        "18446744073709551616", "1e3", "\u{663}", "++1", "-0", "99999999999999999999999",
    ] {
        assert_eq!(parse_unsigned(s, u64::MAX), s.parse::<u64>().ok());
        assert_eq!(parse_unsigned(s, 255), s.parse::<u8>().ok().map(|v| v as u64));
        match (parse_i64(s), s.parse::<i64>()) {
            (Ok(a), Ok(b)) => assert_eq!(a, b),
            (Err(a), Err(b)) => assert_eq!(a.message(), b.to_string()),
            (a, b) => panic!("{:?} and {:?} differ on {:?}", a, b, s),
        }
    }
}

#[test]
fn float_notation_agrees_with_std() {
    for s in [
        "", "0", "1.5", ".5", "5.", ".", "1e3", "1E-3", "1e", "e3", "1.2.3", "+1", "-1.0e+7", "--1",
        "inf", "-Infinity", "NaN", "nano", "infinit", "1_0", " 1", "1 ", "0x10", "1e+", "1e1.5", "+",
        "+.e1", "1.e1", ".1e1", "1e1e1", "INF", "+nAn",
    ] {
        assert_eq!(FloatText::parse(s).is_some(), s.parse::<f64>().is_ok(), "{:?}", s);
    }
    assert_eq!(FloatText::parse("1.50").unwrap().as_str(), "1.50");
    assert_eq!(FloatText::zero().as_str(), "0");
}

#[test]
fn number_tests_agree_with_std() {
    for x in [
        0.0,
        -0.0,
        1.0,
        0.9999999999999999,
        1.0000000000000002,
        -1.0,
        2.5,
        f64::MAX,
        f64::MIN,
        f64::MIN_POSITIVE,
        5e-324,
        f64::INFINITY,
        f64::NEG_INFINITY,
        f64::NAN,
        -f64::NAN,
    ] {
        let b = Binary64 { bits: x.to_bits() };
        assert_eq!(b.is_finite_positive(), x.is_finite() && x > 0.0);
        assert_eq!(b.is_finite_at_least_one(), x.is_finite() && x >= 1.0);
    }
}
