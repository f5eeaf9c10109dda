use http::HeaderValue;
use http_byte_range::decimal::{parse_u64, IntErrorKind};
use http_byte_range::headers::content_range::{
    Bound, HttpContentRange, InvalidBound, Unsatisfiable,
};
use http_byte_range::headers::range::HttpRange;
use http_byte_range::headers::{
    read_bounds, u64_unprefixed_parse, InvalidHttpU64, InvalidOrderedRange, OrderedRange,
    ParseHttpRangeOrContentRangeError,
};
use http_byte_range::text::{chars_of, is_space, same_text, split_once, trim};

fn range_error(text: &str) -> ParseHttpRangeOrContentRangeError {
    text.parse::<HttpRange>().unwrap_err()
}

fn content_error(text: &str) -> ParseHttpRangeOrContentRangeError {
    text.parse::<HttpContentRange>().unwrap_err()
}

fn sign(token: &str) -> InvalidHttpU64 {
    InvalidHttpU64::HasSignPrefix(token.to_owned())
}

#[test]
fn ordered_range_keeps_its_bounds() {
    let pairs = [(0u64, 0u64), (0, 1), (10, 11), (7, u64::MAX), (u64::MAX, u64::MAX)];
    for (start, end) in pairs {
        let range = OrderedRange::new(start..=end).unwrap();
        assert_eq!(range.start(), start);
        assert_eq!(range.end(), end);
        assert!(range.end() >= range.start());
    }
}

#[test]
fn ordered_range_refuses_reversed_bounds() {
    let pairs = [(1u64, 0u64), (11, 10), (u64::MAX, 0)];
    for (start, end) in pairs {
        assert_eq!(
            OrderedRange::new(start..=end),
            Err(InvalidOrderedRange { start, end })
        );
    }
}

#[test]
fn ordered_range_is_written_without_unit() {
    assert_eq!(OrderedRange::new(50..=100).unwrap().to_string(), "50-100");
    assert_eq!(OrderedRange::new(0..=0).unwrap().to_string(), "0-0");
}

#[test]
fn bound_hands_out_what_it_was_made_of() {
    let bound = Bound::new(10..=20, Some(50)).unwrap();
    assert_eq!(bound.range(), OrderedRange::new(10..=20).unwrap());
    assert_eq!(bound.size(), Some(50));
    assert_eq!(Bound::new(10..=20, None).unwrap().size(), None);
}

#[test]
fn bound_has_to_end_before_the_size() {
    assert!(Bound::new(10..=19, Some(20)).is_ok());
    assert_eq!(
        Bound::new(10..=20, Some(20)),
        Err(InvalidBound::InvalidSize {
            range: OrderedRange::new(10..=20).unwrap(),
            size: 20
        })
    );
}

#[test]
fn space_is_unicode_whitespace() {
    for c in [' ', '\t', '\n', '\r', '\u{b}', '\u{c}', '\u{85}', '\u{a0}', '\u{1680}'] {
        assert!(is_space(c));
        assert_eq!(is_space(c), c.is_whitespace());
    }
    for c in ['\u{2000}', '\u{200a}', '\u{2028}', '\u{2029}', '\u{202f}', '\u{205f}', '\u{3000}'] {
        assert!(is_space(c));
    }
    for c in ['a', '0', '-', '\u{8}', '\u{e}', '\u{200b}', '\u{180e}', '\u{feff}'] {
        assert!(!is_space(c));
        assert_eq!(is_space(c), c.is_whitespace());
    }
}

#[test]
fn space_agrees_with_std_on_every_char() {
    for code in 0u32..=0x10FFFF {
        if let Some(c) = char::from_u32(code) {
            assert_eq!(is_space(c), c.is_whitespace(), "U+{:04X}", code);
        }
    }
}

#[test]
fn trim_removes_surrounding_whitespace_only() {
    assert_eq!(trim("  a b \t\n"), "a b");
    assert_eq!(trim("a"), "a");
    assert_eq!(trim(""), "");
    assert_eq!(trim(" \t "), "");
    assert_eq!(trim("\u{3000}é \u{a0}"), "é");
    for text in ["", " ", " x", "x ", " x y ", "\tbytes=1-2\r\n", "ü ", "\u{85}z"] {
        assert_eq!(trim(text), text.trim());
    }
}

#[test]
fn split_once_cuts_at_the_first_separator() {
    assert_eq!(split_once("a=b=c", '='), Some(("a", "b=c")));
    assert_eq!(split_once("=b", '='), Some(("", "b")));
    assert_eq!(split_once("a=", '='), Some(("a", "")));
    assert_eq!(split_once("=", '='), Some(("", "")));
    assert_eq!(split_once("abc", '='), None);
    assert_eq!(split_once("", '='), None);
    assert_eq!(split_once("é-ü", '-'), Some(("é", "ü")));
}

#[test]
fn same_text_compares_character_by_character() {
    assert!(same_text("bytes", "bytes"));
    assert!(same_text("", ""));
    assert!(!same_text("bytes", "byte"));
    assert!(!same_text("bytes", "bytez"));
    assert!(!same_text("Bytes", "bytes"));
}

#[test]
fn chars_of_keeps_the_order() {
    assert_eq!(chars_of("aé-1"), vec!['a', 'é', '-', '1']);
    assert!(chars_of("").is_empty());
}

#[test]
fn decimal_numbers_are_read() {
    assert_eq!(parse_u64("0"), Ok(0));
    assert_eq!(parse_u64("50"), Ok(50));
    assert_eq!(parse_u64("007"), Ok(7));
    assert_eq!(parse_u64("18446744073709551615"), Ok(u64::MAX));
    assert_eq!(parse_u64("0000000000000000000000001"), Ok(1));
}

#[test]
fn decimal_numbers_are_refused_with_their_reason() {
    assert_eq!(parse_u64(""), Err(IntErrorKind::Empty));
    assert_eq!(parse_u64("-1"), Err(IntErrorKind::InvalidDigit));
    assert_eq!(parse_u64("+1"), Err(IntErrorKind::InvalidDigit));
    assert_eq!(parse_u64("1 "), Err(IntErrorKind::InvalidDigit));
    assert_eq!(parse_u64("1_0"), Err(IntErrorKind::InvalidDigit));
    assert_eq!(parse_u64("١٢"), Err(IntErrorKind::InvalidDigit));
    assert_eq!(parse_u64("18446744073709551616"), Err(IntErrorKind::PosOverflow));
    assert_eq!(parse_u64("99999999999999999999"), Err(IntErrorKind::PosOverflow));
    assert_eq!(parse_u64("99999999999999999999999x"), Err(IntErrorKind::PosOverflow));
    assert_eq!(parse_u64("9x999999999999999999999999"), Err(IntErrorKind::InvalidDigit));
}

#[test]
fn decimal_numbers_agree_with_std() {
    let tokens = [
        "0", "1", "10", "0010", "18446744073709551615", "18446744073709551616", "", "a", "1a",
        "-", "-0", " 1", "1.0", "184467440737095516150",
    ];
    for token in tokens {
        assert_eq!(parse_u64(token).ok(), token.parse::<u64>().ok(), "{:?}", token);
    }
}

#[test]
fn decimal_errors_agree_with_std() {
    let tokens = [
        "", "a", "1a", "-", "-0", "+", " 1", "1 ", "18446744073709551616",
        "99999999999999999999999x", "9x999999999999999999999999", "1844674407370955161x",
        "00000000000000000000000000000000x", "184467440737095516150",
    ];
    for token in tokens {
        let expected = match token.parse::<u64>().unwrap_err().kind() {
            std::num::IntErrorKind::Empty => IntErrorKind::Empty,
            std::num::IntErrorKind::InvalidDigit => IntErrorKind::InvalidDigit,
            std::num::IntErrorKind::PosOverflow => IntErrorKind::PosOverflow,
            other => panic!("{:?} for {:?}", other, token),
        };
        assert_eq!(parse_u64(token), Err(expected), "{:?}", token);
    }
}

#[test]
fn unprefixed_integer_refuses_the_sign() {
    assert_eq!(u64_unprefixed_parse("5"), Ok(5));
    assert_eq!(u64_unprefixed_parse("+5"), Err(sign("+5")));
    assert_eq!(u64_unprefixed_parse("+"), Err(sign("+")));
    assert_eq!(u64_unprefixed_parse("+x"), Err(sign("+x")));
    assert_eq!(
        u64_unprefixed_parse(""),
        Err(InvalidHttpU64::InvalidInt(IntErrorKind::Empty))
    );
    assert_eq!(
        u64_unprefixed_parse("5+"),
        Err(InvalidHttpU64::InvalidInt(IntErrorKind::InvalidDigit))
    );
    assert_eq!(
        u64_unprefixed_parse("18446744073709551616"),
        Err(InvalidHttpU64::InvalidInt(IntErrorKind::PosOverflow))
    );
}

#[test]
fn bounds_are_read_in_order() {
    assert_eq!(read_bounds("10", "20"), Ok(OrderedRange::new(10..=20).unwrap()));
    assert_eq!(
        read_bounds("20", "10"),
        Err(ParseHttpRangeOrContentRangeError::UnorderedRange(InvalidOrderedRange {
            start: 20,
            end: 10
        }))
    );
    assert_eq!(
        read_bounds("+1", "x"),
        Err(ParseHttpRangeOrContentRangeError::InvalidRangePiece(sign("+1")))
    );
    assert_eq!(
        read_bounds("1", "x"),
        Err(ParseHttpRangeOrContentRangeError::InvalidRangePiece(
            InvalidHttpU64::InvalidInt(IntErrorKind::InvalidDigit)
        ))
    );
}

#[test]
fn range_is_trimmed_before_it_is_read() {
    assert_eq!(
        "  bytes=50-100\t".parse::<HttpRange>().unwrap(),
        HttpRange::Range(OrderedRange::new(50..=100).unwrap())
    );
    assert_eq!("\r\nbytes=-7 ".parse::<HttpRange>().unwrap(), HttpRange::Suffix(7));
}

#[test]
fn range_reads_the_largest_number() {
    assert_eq!(
        "bytes=18446744073709551615-".parse::<HttpRange>().unwrap(),
        HttpRange::StartingPoint(u64::MAX)
    );
    assert_eq!(
        "bytes=0-18446744073709551615".parse::<HttpRange>().unwrap(),
        HttpRange::Range(OrderedRange::new(0..=u64::MAX).unwrap())
    );
}

#[test]
fn range_errors() {
    assert_eq!(range_error(""), ParseHttpRangeOrContentRangeError::Empty);
    assert_eq!(range_error("  \t"), ParseHttpRangeOrContentRangeError::Empty);
    assert_eq!(range_error("bytes"), ParseHttpRangeOrContentRangeError::Malformed);
    assert_eq!(range_error("bytes 1-2"), ParseHttpRangeOrContentRangeError::Malformed);
    assert_eq!(range_error("bytes=-"), ParseHttpRangeOrContentRangeError::Malformed);
    assert_eq!(range_error("items=1-2"), ParseHttpRangeOrContentRangeError::InvalidUnit);
    assert_eq!(range_error("Bytes=1-2"), ParseHttpRangeOrContentRangeError::InvalidUnit);
    assert_eq!(range_error("=1-2"), ParseHttpRangeOrContentRangeError::InvalidUnit);
    assert_eq!(range_error("bytes =1-2"), ParseHttpRangeOrContentRangeError::InvalidUnit);
    assert_eq!(range_error("bytes="), ParseHttpRangeOrContentRangeError::MalformedRange);
    assert_eq!(range_error("bytes=12"), ParseHttpRangeOrContentRangeError::MalformedRange);
    assert_eq!(range_error("bytes=x-"), ParseHttpRangeOrContentRangeError::MalformedRange);
    assert_eq!(range_error("bytes=-x"), ParseHttpRangeOrContentRangeError::MalformedRange);
    assert_eq!(range_error("bytes=--5"), ParseHttpRangeOrContentRangeError::MalformedRange);
    assert_eq!(
        range_error("bytes=20-10"),
        ParseHttpRangeOrContentRangeError::UnorderedRange(InvalidOrderedRange {
            start: 20,
            end: 10
        })
    );
    assert_eq!(
        range_error("bytes=a-10"),
        ParseHttpRangeOrContentRangeError::InvalidRangePiece(InvalidHttpU64::InvalidInt(
            IntErrorKind::InvalidDigit
        ))
    );
    assert_eq!(
        range_error("bytes=1-2-3"),
        ParseHttpRangeOrContentRangeError::InvalidRangePiece(InvalidHttpU64::InvalidInt(
            IntErrorKind::InvalidDigit
        ))
    );
    assert_eq!(
        range_error("bytes=0-10,20-30"),
        ParseHttpRangeOrContentRangeError::InvalidRangePiece(InvalidHttpU64::InvalidInt(
            IntErrorKind::InvalidDigit
        ))
    );
    assert_eq!(
        range_error("bytes=1-18446744073709551616"),
        ParseHttpRangeOrContentRangeError::InvalidRangePiece(InvalidHttpU64::InvalidInt(
            IntErrorKind::PosOverflow
        ))
    );
}

#[test]
fn range_refuses_sign_prefixed_numbers() {
    assert_eq!(
        range_error("bytes=+5-10"),
        ParseHttpRangeOrContentRangeError::InvalidRangePiece(sign("+5"))
    );
    assert_eq!(
        range_error("bytes=5-+10"),
        ParseHttpRangeOrContentRangeError::InvalidRangePiece(sign("+10"))
    );
    assert_eq!(range_error("bytes=+5-"), ParseHttpRangeOrContentRangeError::MalformedRange);
    assert_eq!(range_error("bytes=-+5"), ParseHttpRangeOrContentRangeError::MalformedRange);
}

#[test]
fn range_round_trips() {
    let requests = [
        HttpRange::StartingPoint(0),
        HttpRange::StartingPoint(50),
        HttpRange::StartingPoint(u64::MAX),
        HttpRange::Range(OrderedRange::new(0..=0).unwrap()),
        HttpRange::Range(OrderedRange::new(50..=100).unwrap()),
        HttpRange::Range(OrderedRange::new(9..=u64::MAX).unwrap()),
        HttpRange::Suffix(0),
        HttpRange::Suffix(100),
        HttpRange::Suffix(u64::MAX),
    ];
    for request in requests {
        assert_eq!(request.to_string().parse::<HttpRange>(), Ok(request));
    }
}

#[test]
fn range_is_written_in_base_ten() {
    assert_eq!(HttpRange::StartingPoint(0).to_string(), "bytes=0-");
    assert_eq!(
        HttpRange::Suffix(u64::MAX).to_string(),
        "bytes=-18446744073709551615"
    );
    assert_eq!(
        HttpRange::Range(OrderedRange::new(9..=1000).unwrap()).to_string(),
        "bytes=9-1000"
    );
}

#[test]
fn content_range_is_trimmed_before_it_is_read() {
    assert_eq!(
        " bytes 10-20/50 ".parse::<HttpContentRange>().unwrap(),
        HttpContentRange::Bound(Bound::new(10..=20, Some(50)).unwrap())
    );
}

#[test]
fn content_range_errors() {
    assert_eq!(content_error(""), ParseHttpRangeOrContentRangeError::Empty);
    assert_eq!(content_error("bytes"), ParseHttpRangeOrContentRangeError::Malformed);
    assert_eq!(content_error("bytes=1-2/3"), ParseHttpRangeOrContentRangeError::Malformed);
    assert_eq!(content_error("bytes 1-2"), ParseHttpRangeOrContentRangeError::Malformed);
    assert_eq!(content_error("bytes */*"), ParseHttpRangeOrContentRangeError::Malformed);
    assert_eq!(content_error("items 1-2/3"), ParseHttpRangeOrContentRangeError::InvalidUnit);
    assert_eq!(content_error("bytes 12/30"), ParseHttpRangeOrContentRangeError::MalformedRange);
    assert_eq!(content_error("bytes -2/30"), ParseHttpRangeOrContentRangeError::MalformedRange);
    assert_eq!(content_error("bytes 1-/30"), ParseHttpRangeOrContentRangeError::MalformedRange);
    assert_eq!(content_error("bytes -/30"), ParseHttpRangeOrContentRangeError::MalformedRange);
    assert_eq!(content_error("bytes /30"), ParseHttpRangeOrContentRangeError::MalformedRange);
    assert_eq!(
        content_error("bytes  1-2/30"),
        ParseHttpRangeOrContentRangeError::InvalidRangePiece(InvalidHttpU64::InvalidInt(
            IntErrorKind::InvalidDigit
        ))
    );
    assert_eq!(
        content_error("bytes 20-10/30"),
        ParseHttpRangeOrContentRangeError::UnorderedRange(InvalidOrderedRange {
            start: 20,
            end: 10
        })
    );
    assert_eq!(
        content_error("bytes 1-2/"),
        ParseHttpRangeOrContentRangeError::InvalidSize(InvalidHttpU64::InvalidInt(
            IntErrorKind::Empty
        ))
    );
    assert_eq!(
        content_error("bytes 1-2/x"),
        ParseHttpRangeOrContentRangeError::InvalidSize(InvalidHttpU64::InvalidInt(
            IntErrorKind::InvalidDigit
        ))
    );
    assert_eq!(
        content_error("bytes */18446744073709551616"),
        ParseHttpRangeOrContentRangeError::InvalidSize(InvalidHttpU64::InvalidInt(
            IntErrorKind::PosOverflow
        ))
    );
    assert_eq!(
        content_error("bytes x-2/+3"),
        ParseHttpRangeOrContentRangeError::InvalidRangePiece(InvalidHttpU64::InvalidInt(
            IntErrorKind::InvalidDigit
        ))
    );
}

#[test]
fn content_range_has_to_end_before_its_size() {
    assert_eq!(
        content_error("bytes 10-50/20"),
        ParseHttpRangeOrContentRangeError::InvalidBound(InvalidBound::InvalidSize {
            range: OrderedRange::new(10..=50).unwrap(),
            size: 20
        })
    );
    assert_eq!(
        content_error("bytes 0-20/20"),
        ParseHttpRangeOrContentRangeError::InvalidBound(InvalidBound::InvalidSize {
            range: OrderedRange::new(0..=20).unwrap(),
            size: 20
        })
    );
    assert!("bytes 0-19/20".parse::<HttpContentRange>().is_ok());
}

#[test]
fn content_range_refuses_sign_prefixed_numbers() {
    assert_eq!(
        content_error("bytes +5-10/20"),
        ParseHttpRangeOrContentRangeError::InvalidRangePiece(sign("+5"))
    );
    assert_eq!(
        content_error("bytes 5-+10/20"),
        ParseHttpRangeOrContentRangeError::InvalidRangePiece(sign("+10"))
    );
    assert_eq!(
        content_error("bytes 5-10/+20"),
        ParseHttpRangeOrContentRangeError::InvalidSize(sign("+20"))
    );
    assert_eq!(
        content_error("bytes */+5"),
        ParseHttpRangeOrContentRangeError::InvalidSize(sign("+5"))
    );
}

#[test]
fn content_range_round_trips() {
    let answers = [
        HttpContentRange::Bound(Bound::new(0..=0, Some(1)).unwrap()),
        HttpContentRange::Bound(Bound::new(10..=20, Some(50)).unwrap()),
        HttpContentRange::Bound(Bound::new(10..=20, None).unwrap()),
        HttpContentRange::Bound(Bound::new(0..=u64::MAX, None).unwrap()),
        HttpContentRange::Bound(Bound::new(0..=u64::MAX - 1, Some(u64::MAX)).unwrap()),
        HttpContentRange::Unsatisfiable(Unsatisfiable::new(0)),
        HttpContentRange::Unsatisfiable(Unsatisfiable::new(50)),
        HttpContentRange::Unsatisfiable(Unsatisfiable::new(u64::MAX)),
    ];
    for answer in answers {
        assert_eq!(answer.to_string().parse::<HttpContentRange>(), Ok(answer));
    }
}

#[test]
fn matching_a_served_range() {
    let served = HttpContentRange::Bound(Bound::new(10..=20, Some(50)).unwrap());
    assert!(served.matches_requested_range(HttpRange::StartingPoint(10)));
    assert!(!served.matches_requested_range(HttpRange::StartingPoint(11)));
    assert!(served.matches_requested_range(HttpRange::Range(OrderedRange::new(10..=20).unwrap())));
    assert!(!served.matches_requested_range(HttpRange::Range(OrderedRange::new(10..=21).unwrap())));
    assert!(!served.matches_requested_range(HttpRange::Range(OrderedRange::new(9..=20).unwrap())));
    assert!(served.matches_requested_range(HttpRange::Suffix(11)));
    assert!(!served.matches_requested_range(HttpRange::Suffix(10)));
    assert!(!served.matches_requested_range(HttpRange::Suffix(12)));
}

#[test]
fn matching_a_refusal() {
    let refusal = HttpContentRange::Unsatisfiable(Unsatisfiable::new(20));
    assert!(refusal.matches_requested_range(HttpRange::StartingPoint(20)));
    assert!(!refusal.matches_requested_range(HttpRange::StartingPoint(19)));
    assert!(refusal.matches_requested_range(HttpRange::Range(OrderedRange::new(0..=20).unwrap())));
    assert!(!refusal.matches_requested_range(HttpRange::Range(OrderedRange::new(0..=19).unwrap())));
    assert!(refusal.matches_requested_range(HttpRange::Suffix(21)));
    assert!(!refusal.matches_requested_range(HttpRange::Suffix(20)));
}

#[test]
fn matching_a_suffix_that_has_no_length() {
    let whole = HttpContentRange::Bound(Bound::new(0..=u64::MAX, None).unwrap());
    assert!(!whole.matches_requested_range(HttpRange::Suffix(0)));
    assert!(!whole.matches_requested_range(HttpRange::Suffix(u64::MAX)));
}

#[test]
fn header_value_of_a_range() {
    let request = HttpRange::Range(OrderedRange::new(50..=100).unwrap());
    let value = HeaderValue::from(&request);
    assert_eq!(value.as_bytes(), b"bytes=50-100");
    assert_eq!(HttpRange::try_from(&value), Ok(request));
}

#[test]
fn header_value_of_a_content_range() {
    let answer = HttpContentRange::Bound(Bound::new(10..=20, Some(50)).unwrap());
    let value = HeaderValue::from(&answer);
    assert_eq!(value.as_bytes(), b"bytes 10-20/50");
    assert_eq!(HttpContentRange::try_from(&value), Ok(answer));
    let refusal = HttpContentRange::Unsatisfiable(Unsatisfiable::new(50));
    assert_eq!(HeaderValue::from(&refusal).as_bytes(), b"bytes */50");
}

#[test]
fn header_value_has_to_be_visible_ascii() {
    let opaque = HeaderValue::from_bytes(b"bytes=1-2\xfa").unwrap();
    assert_eq!(
        HttpRange::try_from(&opaque),
        Err(ParseHttpRangeOrContentRangeError::ContainsNonVisibleASCII)
    );
    assert_eq!(
        HttpContentRange::try_from(&opaque),
        Err(ParseHttpRangeOrContentRangeError::ContainsNonVisibleASCII)
    );
}

#[test]
fn header_value_with_tabs_is_read_as_text() {
    let padded = HeaderValue::from_bytes(b"\tbytes=1-2\t").unwrap();
    assert_eq!(
        HttpRange::try_from(&padded),
        Ok(HttpRange::Range(OrderedRange::new(1..=2).unwrap()))
    );
    let wrong = HeaderValue::from_static("bytes=1-2/3");
    assert_eq!(
        HttpRange::try_from(&wrong),
        Err(ParseHttpRangeOrContentRangeError::InvalidRangePiece(
            InvalidHttpU64::InvalidInt(IntErrorKind::InvalidDigit)
        ))
    );
}
