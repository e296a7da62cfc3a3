use http_server::request::{
    parse_header_line, parse_request_line, read_headers, HttpMethod, ParseError,
};
use http_server::whitespace::{
    trim_white_end_of, trim_white_of, trim_white_start_of, white_byte, white_pair, white_prefix_len,
    white_suffix_len, white_triple,
};

#[test]
fn every_character_is_whitespace_as_std_says() {
    let mut seen = 0;
    for code in 0u32..=0x10FFFF {
        let Some(c) = char::from_u32(code) else {
            continue;
        };
        let mut buf = [0u8; 4];
        let bytes = c.encode_utf8(&mut buf).as_bytes();
        let expected = if c.is_whitespace() { bytes.len() } else { 0 };
        assert_eq!(white_prefix_len(bytes), expected, "U+{:04X}", code);
        assert_eq!(white_suffix_len(bytes), expected, "U+{:04X}", code);
        assert_eq!(trim_white_of(bytes).is_empty(), c.is_whitespace(), "U+{:04X}", code);
        if c.is_whitespace() {
            seen += 1;
        }
    }
    assert_eq!(seen, 25);
}

#[test]
fn whitespace_encodings() {
    for a in 0u8..=255 {
        assert_eq!(white_byte(a), (0x09..=0x0D).contains(&a) || a == 0x20);
    }
    assert!(white_pair(0xC2, 0x85));
    assert!(white_pair(0xC2, 0xA0));
    assert!(!white_pair(0xC2, 0xA1));
    assert!(!white_pair(0xC3, 0xA0));
    assert!(white_triple(0xE1, 0x9A, 0x80));
    assert!(white_triple(0xE2, 0x80, 0x80));
    assert!(white_triple(0xE2, 0x80, 0x8A));
    assert!(!white_triple(0xE2, 0x80, 0x8B));
    assert!(white_triple(0xE2, 0x80, 0xA8));
    assert!(white_triple(0xE2, 0x80, 0xA9));
    assert!(white_triple(0xE2, 0x80, 0xAF));
    assert!(white_triple(0xE2, 0x81, 0x9F));
    assert!(white_triple(0xE3, 0x80, 0x80));
    assert!(!white_triple(0xE3, 0x80, 0x81));
    assert!(!white_triple(0xE1, 0x9A, 0x81));
}

#[test]
fn trimming_agrees_with_std() {
    let cases = [
        "",
        "x",
        " \t a b \r\n",
        "\u{b}v",
        "v\u{b}",
        "\u{85}\u{a0}key\u{1680}\u{2000}",
        "\u{2003}\u{200a} a\u{3000}b \u{2028}\u{2029}\u{202f}\u{205f}\u{3000}",
        "\u{200b}zero width is no whitespace\u{200b}",
        "\u{a0}",
        " \u{3000} \u{a0} ",
        "é\u{a0}é",
        "\u{c}\u{d}\u{a}\u{9}grüße\u{20}",
    ];
    for case in cases {
        assert_eq!(trim_white_start_of(case.as_bytes()), case.trim_start().as_bytes(), "{:?}", case);
        assert_eq!(trim_white_end_of(case.as_bytes()), case.trim_end().as_bytes(), "{:?}", case);
        assert_eq!(trim_white_of(case.as_bytes()), case.trim().as_bytes(), "{:?}", case);
    }
}

#[test]
fn trimming_leaves_the_middle_alone() {
    assert_eq!(trim_white_of(b" \t a b \r\n"), b"a b");
    assert_eq!(trim_white_of(b"   "), b"");
    assert_eq!(trim_white_of(b""), b"");
    assert_eq!(trim_white_of(b"x"), b"x");
    assert_eq!(trim_white_of(b"\xc2"), b"\xc2");
    assert_eq!(trim_white_of(b"\x85"), b"\x85");
    assert_eq!(trim_white_of(b"\xe2\x80"), b"\xe2\x80");
}

#[test]
fn header_value_loses_a_vertical_tab() {
    assert_eq!(parse_header_line(b"X:\x0bv"), Ok(Some((b"X".to_vec(), b"v".to_vec()))));
    let lines = vec![b"X:\x0bv".to_vec(), Vec::new()];
    let headers = read_headers(&lines).unwrap();
    assert_eq!(headers.len(), 1);
    assert_eq!(headers.get(b"X"), Some(&b"v".to_vec()));
}

#[test]
fn header_parts_lose_unicode_whitespace() {
    let line = "\u{a0}Key\u{2003} :\u{3000} some\u{a0}value \u{85}\u{2028}\r\n";
    assert_eq!(
        parse_header_line(line.as_bytes()),
        Ok(Some((b"Key".to_vec(), "some\u{a0}value".as_bytes().to_vec())))
    );
}

#[test]
fn header_line_agrees_with_std_trimming() {
    let cases = [
        "Host: x\r\n",
        "X:\u{b}v",
        "\u{a0}A\u{a0}:\u{a0}b\u{a0}\r\n",
        " a : b : c \u{3000}",
        ":\u{2009}",
        "k\u{200a}:v\u{205f}\n",
    ];
    for case in cases {
        let line = case.trim_end();
        let mut parts = line.splitn(2, ':');
        let name = parts.next().unwrap().trim();
        let value = parts.next().unwrap().trim();
        assert_eq!(
            parse_header_line(case.as_bytes()),
            Ok(Some((name.as_bytes().to_vec(), value.as_bytes().to_vec()))),
            "{:?}",
            case
        );
    }
}

#[test]
fn line_of_unicode_whitespace_ends_the_block() {
    assert_eq!(parse_header_line(b"\x0b"), Ok(None));
    assert_eq!(parse_header_line("\u{a0}\u{3000}\u{2028}\r\n".as_bytes()), Ok(None));
    let lines = vec![
        b"A: 1\r\n".to_vec(),
        "\u{a0}\u{b}\r\n".as_bytes().to_vec(),
        b"B: 2\r\n".to_vec(),
    ];
    let headers = read_headers(&lines).unwrap();
    assert_eq!(headers.len(), 1);
    assert_eq!(headers.get(b"B"), None);
}

#[test]
fn line_of_other_bytes_without_colon_is_malformed() {
    assert_eq!(parse_header_line("\u{200b}".as_bytes()), Err(ParseError::MalformedHeader));
    assert_eq!(parse_header_line(b"\xc2"), Err(ParseError::MalformedHeader));
}

#[test]
fn request_line_splits_on_ascii_whitespace_only() {
    assert_eq!(
        parse_request_line("GET /a\u{a0}b HTTP/1.1\r\n".as_bytes()),
        Ok((HttpMethod::Get, "/a\u{a0}b".as_bytes().to_vec(), b"HTTP/1.1".to_vec()))
    );
    assert_eq!(
        parse_request_line(b"GET /a\x0bb"),
        Ok((HttpMethod::Get, b"/a\x0bb".to_vec(), b"HTTP/1.1".to_vec()))
    );
}
