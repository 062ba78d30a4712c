use serial_port_backend::models::DisplayMode;
use serial_port_backend::serial::{format_bytes, parse_hex_string};

#[test]
fn parses_mixed_case_tokens() {
    assert_eq!(parse_hex_string("0A ff 41"), Ok(vec![0x0a, 0xff, 0x41]));
}

#[test]
fn parses_any_whitespace_between_tokens() {
    assert_eq!(parse_hex_string("  0a\t\n FF  \r"), Ok(vec![0x0a, 0xff]));
    assert_eq!(parse_hex_string("\u{3000}0a\u{a0}1"), Ok(vec![0x0a, 0x01]));
}

#[test]
fn empty_and_blank_payloads_are_no_bytes() {
    assert_eq!(parse_hex_string(""), Ok(vec![]));
    assert_eq!(parse_hex_string(" \t "), Ok(vec![]));
}

#[test]
fn accepts_plus_sign_and_leading_zeros() {
    assert_eq!(parse_hex_string("+7 0001 00ff"), Ok(vec![7, 1, 255]));
}

#[test]
fn refuses_non_hex_digits() {
    assert_eq!(parse_hex_string("GG"), Err("invalid digit found in string".to_string()));
    assert_eq!(parse_hex_string("0x10"), Err("invalid digit found in string".to_string()));
    assert_eq!(parse_hex_string("é"), Err("invalid digit found in string".to_string()));
}

#[test]
fn refuses_lone_signs_and_minus() {
    assert_eq!(parse_hex_string("+"), Err("invalid digit found in string".to_string()));
    assert_eq!(parse_hex_string("-"), Err("invalid digit found in string".to_string()));
    assert_eq!(parse_hex_string("-1"), Err("invalid digit found in string".to_string()));
    assert_eq!(parse_hex_string("++1"), Err("invalid digit found in string".to_string()));
}

#[test]
fn refuses_values_above_a_byte() {
    assert_eq!(
        parse_hex_string("100"),
        Err("number too large to fit in target type".to_string())
    );
}

#[test]
fn first_refused_token_decides_the_error() {
    assert_eq!(parse_hex_string("01 G 100"), Err("invalid digit found in string".to_string()));
    assert_eq!(
        parse_hex_string("01 100 G"),
        Err("number too large to fit in target type".to_string())
    );
    // Within a token, the overflow is met before the bad digit.
    assert_eq!(
        parse_hex_string("FFFG"),
        Err("number too large to fit in target type".to_string())
    );
    assert_eq!(parse_hex_string("1G00"), Err("invalid digit found in string".to_string()));
}

#[test]
fn hex_display_of_bytes() {
    assert_eq!(format_bytes(&[0x0a, 0xff, 0x41], &DisplayMode::Hex), "0A FF 41");
    assert_eq!(format_bytes(&[0x00], &DisplayMode::Hex), "00");
    assert_eq!(format_bytes(&[], &DisplayMode::Hex), "");
}

#[test]
fn ascii_display_of_bytes() {
    assert_eq!(format_bytes(b"hello", &DisplayMode::Ascii), "hello");
    assert_eq!(format_bytes("héllo".as_bytes(), &DisplayMode::Ascii), "héllo");
    assert_eq!(format_bytes(&[0xff, b'a'], &DisplayMode::Ascii), "\u{fffd}a");
    assert_eq!(format_bytes(&[], &DisplayMode::Ascii), "");
}

#[test]
fn hex_display_reads_back() {
    let all: Vec<u8> = (0..=255u8).collect();
    let shown = format_bytes(&all, &DisplayMode::Hex);
    assert_eq!(shown.len(), 3 * 256 - 1);
    assert_eq!(parse_hex_string(&shown), Ok(all));
}

#[test]
fn ascii_text_is_shown_as_typed() {
    let text = "tx: ünïcode ✓ 42";
    assert_eq!(format_bytes(text.as_bytes(), &DisplayMode::Ascii), text);
}

#[test]
fn letter_case_never_matters() {
    for s in ["0a ff Bc", "gg 1", "+fe", "1ff", "ab cd zz", "  e\t"] {
        assert_eq!(parse_hex_string(&s.to_ascii_uppercase()), parse_hex_string(s), "{:?}", s);
    }
}

#[test]
fn spacing_never_matters() {
    for s in ["  0a \t\n ff\u{3000}41 ", "1\u{a0}\u{a0}2", "", "   ", "1  100", "x\ty"] {
        let joined = s.split_whitespace().collect::<Vec<_>>().join(" ");
        assert_eq!(parse_hex_string(&joined), parse_hex_string(s), "{:?}", s);
    }
}

#[test]
fn same_tokens_up_to_case_read_the_same() {
    assert_eq!(parse_hex_string("aB\t\t0c"), parse_hex_string(" AB 0C "));
    assert_eq!(parse_hex_string("zz 1"), parse_hex_string("ZZ\u{2003}1"));
}
