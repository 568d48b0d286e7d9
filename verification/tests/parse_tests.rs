use embedded_course::parse::{parse_line_u32, parse_u32, trim_bounds, IntErrorKind};

fn std_kind(s: &str) -> Result<u32, IntErrorKind> {
    match s.parse::<u32>() {
        Ok(v) => Ok(v),
        Err(e) => Err(match e.kind() {
            std::num::IntErrorKind::Empty => IntErrorKind::Empty,
            std::num::IntErrorKind::InvalidDigit => IntErrorKind::InvalidDigit,
            std::num::IntErrorKind::PosOverflow => IntErrorKind::PosOverflow,
            other => panic!("unexpected error kind {:?}", other),
        }),
    }
}

#[test]
fn parse_plain_numbers() {
    assert_eq!(parse_u32(b"0"), Ok(0));
    assert_eq!(parse_u32(b"42"), Ok(42));
    assert_eq!(parse_u32(b"007"), Ok(7));
    assert_eq!(parse_u32(b"+7"), Ok(7));
    assert_eq!(parse_u32(b"4294967295"), Ok(u32::MAX));
}

#[test]
fn parse_errors() {
    assert_eq!(parse_u32(b""), Err(IntErrorKind::Empty));
    assert_eq!(parse_u32(b"+"), Err(IntErrorKind::InvalidDigit));
    assert_eq!(parse_u32(b"-"), Err(IntErrorKind::InvalidDigit));
    assert_eq!(parse_u32(b"-7"), Err(IntErrorKind::InvalidDigit));
    assert_eq!(parse_u32(b"12a"), Err(IntErrorKind::InvalidDigit));
    assert_eq!(parse_u32(b"1 2"), Err(IntErrorKind::InvalidDigit));
    assert_eq!(parse_u32(b"4294967296"), Err(IntErrorKind::PosOverflow));
    assert_eq!(parse_u32(b"99999999999a"), Err(IntErrorKind::PosOverflow));
    assert_eq!(parse_u32(b"++1"), Err(IntErrorKind::InvalidDigit));
}

#[test]
fn parse_agrees_with_std() {
    let cases = [
        "", "+", "-", "0", "1", "+0", "-0", "12", "a1", "1a", "4294967295", "4294967296",
        "00004294967295", "42949672950", "+4294967295", "9999999999", "99999999999a", "1+",
        "+-1", " 1", "1 ", "é", "+é", "12é",
    ];
    for c in cases {
        assert_eq!(parse_u32(c.as_bytes()), std_kind(c), "case {:?}", c);
    }
}

#[test]
fn trim_drops_unicode_white_space() {
    let line: Vec<char> = "\u{3000} \tab c\u{a0}\n".chars().collect();
    let (i, j) = trim_bounds(&line);
    let kept: String = line[i..j].iter().collect();
    assert_eq!(kept, "ab c");
    let blank: Vec<char> = " \n\u{2028}".chars().collect();
    let (i, j) = trim_bounds(&blank);
    assert_eq!(i, j);
}

#[test]
fn parse_line_like_trim_then_parse() {
    let cases = [
        "42\n", "  7  \r\n", "\n", "", "x\n", "\u{3000}9\u{a0}", "é\n", "+5\n", "4294967296\n",
        "1 2\n", "\u{85}\u{1680}3\u{202f}",
    ];
    for c in cases {
        let line: Vec<char> = c.chars().collect();
        assert_eq!(parse_line_u32(&line), std_kind(c.trim()), "case {:?}", c);
    }
}
