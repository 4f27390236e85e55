use mina_mesh::text::{
    chars_of, decimal_i64, decimal_u64, has_text, is_text_less, parse_i64, parse_i64_or_zero,
    parse_u64, parse_u64_or_zero, trim_trailing_slashes, ParseIntError,
};

#[test]
fn numbers_read_back_from_their_digits() {
    for n in [0u64, 7, 10, 99, 1_000_000_000, u64::MAX - 1, u64::MAX] {
        assert_eq!(decimal_u64(n), n.to_string());
        assert_eq!(parse_u64(&decimal_u64(n)), Ok(n));
    }
    for n in [0i64, 5, -5, 10, -10, i64::MAX, i64::MIN] {
        assert_eq!(decimal_i64(n), n.to_string());
        assert_eq!(parse_i64(&decimal_i64(n)), Ok(n));
    }
}

#[test]
fn reading_agrees_with_std() {
    let texts = [
        "", "+", "-", "+-", "--1", "0", "-0", "+0", "007", "+12", "-12", " 1", "1 ", "1a", "a1", "1_000",
        "18446744073709551615", "18446744073709551616", "9223372036854775807", "9223372036854775808",
        "-9223372036854775808", "-9223372036854775809", "99999999999999999999x", "1844674407370955161x",
        "2024-01-01T00:00:00Z", "\u{0661}", "\u{ff11}", "é",
    ];
    for text in texts {
        assert_eq!(parse_u64(text).ok(), text.parse::<u64>().ok(), "{text}");
        assert_eq!(parse_i64(text).ok(), text.parse::<i64>().ok(), "{text}");
        assert_eq!(parse_u64_or_zero(text), text.parse::<u64>().unwrap_or(0), "{text}");
        assert_eq!(parse_i64_or_zero(text), text.parse::<i64>().unwrap_or_default(), "{text}");
        if let Err(e) = text.parse::<i64>() {
            assert_eq!(
                format!("{:?}", parse_i64(text).unwrap_err()),
                format!("{:?}", e.kind()),
                "{text}"
            );
        }
        if let Err(e) = text.parse::<u64>() {
            assert_eq!(
                format!("{:?}", parse_u64(text).unwrap_err()),
                format!("{:?}", e.kind()),
                "{text}"
            );
        }
    }
}

#[test]
fn each_way_of_not_being_a_number() {
    assert_eq!(parse_i64(""), Err(ParseIntError::Empty));
    assert_eq!(parse_i64("1x"), Err(ParseIntError::InvalidDigit));
    assert_eq!(parse_i64("-"), Err(ParseIntError::InvalidDigit));
    assert_eq!(parse_i64("9223372036854775808"), Err(ParseIntError::PosOverflow));
    assert_eq!(parse_i64("-9223372036854775809"), Err(ParseIntError::NegOverflow));
    assert_eq!(parse_u64("-1"), Err(ParseIntError::InvalidDigit));
    assert_eq!(parse_u64("18446744073709551616"), Err(ParseIntError::PosOverflow));
}

#[test]
fn order_of_texts_is_that_of_std() {
    let texts = ["", "a", "ab", "b", "B", "é", "z", "\u{10000}", "\u{ffff}", "aé"];
    for a in texts {
        for b in texts {
            assert_eq!(is_text_less(a, b), a < b);
            assert_eq!(a != b, is_text_less(a, b) || is_text_less(b, a));
            for c in texts {
                if is_text_less(a, b) && is_text_less(b, c) {
                    assert!(is_text_less(a, c));
                }
            }
        }
    }
}

#[test]
fn trailing_slashes_are_removed() {
    assert_eq!(trim_trailing_slashes("http://h:1"), "http://h:1");
    assert_eq!(trim_trailing_slashes("http://h:1/"), "http://h:1");
    assert_eq!(trim_trailing_slashes("http://h:1///"), "http://h:1");
    assert_eq!(trim_trailing_slashes("http://h/é/"), "http://h/é");
    assert_eq!(trim_trailing_slashes("///"), "");
    assert_eq!(trim_trailing_slashes(""), "");
}

#[test]
fn substrings_are_found() {
    assert!(has_text("STAKE_DELEGATION", "DELEG"));
    assert!(has_text("DELEG", "DELEG"));
    assert!(has_text("xDELEDELEG", "DELEG"));
    assert!(!has_text("DELE", "DELEG"));
    assert!(!has_text("PAYMENT", "DELEG"));
    assert!(has_text("", ""));
    assert!(has_text("a", ""));
}

#[test]
fn characters_are_kept_in_order() {
    assert_eq!(chars_of("aé\u{10000}"), vec!['a', 'é', '\u{10000}']);
    assert_eq!(chars_of(""), Vec::<char>::new());
}
