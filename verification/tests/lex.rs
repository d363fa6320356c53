use mipsy::lex::{
    comment_multispace0, parse_char, parse_ident, parse_u32, take_while, ByteClass,
};
use mipsy::span::{ParseError, Span};

#[test]
fn span_knows_line_and_column() {
    let text = b"ab\ncd\n\nx";
    let start = Span::new(text);
    assert_eq!(start.location_offset(), 0);
    assert_eq!(start.location_line(), 1);
    assert_eq!(start.get_column(), 1);
    assert_eq!(start.remaining(), 8);
    assert_eq!(start.peek(), Some(b'a'));
    assert_eq!(start.peek_at(2), Some(b'\n'));
    assert_eq!(start.peek_at(8), None);
    let second = start.advance(3);
    assert_eq!((second.location_line(), second.get_column()), (2, 1));
    let newline = start.advance(5);
    assert_eq!((newline.location_line(), newline.get_column()), (2, 3));
    let last = start.advance(7);
    assert_eq!((last.location_line(), last.get_column()), (4, 1));
    let end = start.advance(8);
    assert_eq!((end.location_line(), end.get_column()), (4, 2));
    assert_eq!(end.peek(), None);
    assert_eq!(end.remaining(), 0);
    assert_eq!(end.error(), ParseError { offset: 8, line: 4, col: 2 });
}

#[test]
fn span_of_empty_input() {
    let start = Span::new(b"");
    assert_eq!(start.peek(), None);
    assert_eq!(start.error(), ParseError { offset: 0, line: 1, col: 1 });
}

#[test]
fn blank_space_and_comments_are_skipped() {
    let skip = |text: &str| comment_multispace0(Span::new(text.as_bytes())).location_offset();
    assert_eq!(skip(""), 0);
    assert_eq!(skip("x"), 0);
    assert_eq!(skip(" \t\r\n x"), 5);
    assert_eq!(skip("# note\nx"), 7);
    assert_eq!(skip("# note"), 6);
    assert_eq!(skip("  # a\n # b\n\n  x # c"), 14);
    assert_eq!(skip("#\n#\n"), 4);
}

#[test]
fn byte_classes() {
    assert!(ByteClass::Binary.test(b'1') && !ByteClass::Binary.test(b'2'));
    assert!(ByteClass::Octal.test(b'7') && !ByteClass::Octal.test(b'8'));
    assert!(ByteClass::Digit.test(b'9') && !ByteClass::Digit.test(b'a'));
    assert!(ByteClass::Hex.test(b'f') && ByteClass::Hex.test(b'A') && !ByteClass::Hex.test(b'g'));
    assert!(ByteClass::Alphanumeric.test(b'z') && !ByteClass::Alphanumeric.test(b'_'));
    assert!(ByteClass::IdentPart.test(b'_') && !ByteClass::IdentPart.test(b'.'));
    assert!(ByteClass::Blank.test(b'\t') && !ByteClass::Blank.test(b'\n'));
    assert_eq!(
        take_while(Span::new(b"0129"), ByteClass::Octal).location_offset(),
        3
    );
    assert_eq!(take_while(Span::new(b"x"), ByteClass::Digit).location_offset(), 0);
}

#[test]
fn identifiers() {
    let (rest, name) = parse_ident(Span::new(b"loop_2: nop")).unwrap();
    assert_eq!(name, "loop_2");
    assert_eq!(rest.location_offset(), 6);
    assert_eq!(parse_ident(Span::new(b"_")).unwrap().1, "_");
    assert_eq!(parse_ident(Span::new(b"a.b")).unwrap().1, "a");
    assert_eq!(
        parse_ident(Span::new(b"2a")).unwrap_err(),
        ParseError { offset: 0, line: 1, col: 1 }
    );
    assert!(parse_ident(Span::new(b"")).is_err());
    assert!(parse_ident(Span::new(b"$t0")).is_err());
}

#[test]
fn integer_literals() {
    let read = |text: &str| {
        let (rest, value) = parse_u32(Span::new(text.as_bytes())).unwrap();
        (value, rest.location_offset())
    };
    assert_eq!(read("0"), (0, 1));
    assert_eq!(read("10"), (10, 2));
    assert_eq!(read("012"), (10, 3));
    assert_eq!(read("0x123"), (0x123, 5));
    assert_eq!(read("0XABCDEF rest"), (0xABCDEF, 8));
    assert_eq!(read("0b1101"), (13, 6));
    assert_eq!(read("0B12"), (1, 3));
    assert_eq!(read("4294967295"), (u32::MAX, 10));
    assert_eq!(read("0xffffffff"), (u32::MAX, 10));
    assert_eq!(read("037777777777"), (u32::MAX, 12));
    assert_eq!(read("0000000000000000000001"), (1, 22));
    assert_eq!(read("123abc"), (123, 3));
    // a prefix that no digit of its base follows is no prefix
    assert_eq!(read("0x"), (0, 1));
    assert_eq!(read("0b2"), (0, 1));
    assert_eq!(read("08"), (8, 2));
    assert_eq!(read("0178"), (15, 3));
}

#[test]
fn integer_literals_that_do_not_fit_or_do_not_start() {
    let origin = ParseError { offset: 0, line: 1, col: 1 };
    assert_eq!(parse_u32(Span::new(b"4294967296")).unwrap_err(), origin);
    assert_eq!(parse_u32(Span::new(b"0x100000000")).unwrap_err(), origin);
    assert_eq!(parse_u32(Span::new(b"99999999999999999999999999")).unwrap_err(), origin);
    assert_eq!(parse_u32(Span::new(b"-1")).unwrap_err(), origin);
    assert_eq!(parse_u32(Span::new(b"")).unwrap_err(), origin);
    assert_eq!(parse_u32(Span::new(b"x1")).unwrap_err(), origin);
}

#[test]
fn character_literals() {
    let read = |text: &str| {
        let (rest, value) = parse_char(Span::new(text.as_bytes())).unwrap();
        (value, rest.location_offset())
    };
    assert_eq!(read("'a'"), (b'a', 3));
    assert_eq!(read("' ' x"), (b' ', 3));
    assert_eq!(read("'\"'"), (b'"', 3));
    assert_eq!(read("'\\0'"), (0, 4));
    assert_eq!(read("'\\t'"), (9, 4));
    assert_eq!(read("'\\n'"), (10, 4));
    assert_eq!(read("'\\r'"), (13, 4));
    assert_eq!(read("'\\\\'"), (b'\\', 4));
    assert_eq!(read("'\\''"), (b'\'', 4));
    assert_eq!(read("'\\\"'"), (b'"', 4));
    for bad in ["", "'", "'a", "''", "'''", "'ab'", "'\\'", "'\\q'", "'\\n", "a"] {
        assert_eq!(
            parse_char(Span::new(bad.as_bytes())).unwrap_err(),
            ParseError { offset: 0, line: 1, col: 1 },
            "{:?}",
            bad
        );
    }
}
