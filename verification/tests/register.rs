use mipsy::constant::MpConstValue::{Const, Minus, Sum, Value};
use mipsy::register::{
    parse_normal_register, parse_offset_register, parse_register, MpRegister,
    MpRegister::{Normal, Offset},
    MpRegisterIdentifier::{Named, Numbered},
};
use mipsy::span::{ParseError, Span};

fn register(text: &str) -> MpRegister {
    let (rest, found) = parse_register(Span::new(text.as_bytes())).unwrap();
    assert_eq!(rest.remaining(), 0, "{:?}", text);
    found
}

#[test]
fn registers_by_name_and_by_number() {
    assert_eq!(register("$t0"), Normal(Named("t0".to_string())));
    assert_eq!(register("$8"), Normal(Numbered(8)));
    assert_eq!(register("$0"), Normal(Numbered(0)));
    assert_eq!(register("$008"), Normal(Numbered(8)));
    assert_eq!(register("$255"), Normal(Numbered(255)));
    assert_eq!(register("$256"), Normal(Named("256".to_string())));
    assert_eq!(register("$zero"), Normal(Named("zero".to_string())));
    assert_eq!(register("$SP"), Normal(Named("SP".to_string())));
}

#[test]
fn a_register_ends_where_its_run_ends() {
    let (rest, found) = parse_normal_register(Span::new(b"$8abc, $t1")).unwrap();
    assert_eq!(found, Normal(Numbered(8)));
    assert_eq!(rest.location_offset(), 2);
    let (rest, found) = parse_normal_register(Span::new(b"$t1_x")).unwrap();
    assert_eq!(found, Normal(Named("t1".to_string())));
    assert_eq!(rest.location_offset(), 3);
}

#[test]
fn what_is_no_register() {
    assert_eq!(
        parse_normal_register(Span::new(b"t0")).unwrap_err(),
        ParseError { offset: 0, line: 1, col: 1 }
    );
    assert_eq!(
        parse_normal_register(Span::new(b"$")).unwrap_err(),
        ParseError { offset: 1, line: 1, col: 2 }
    );
    assert_eq!(
        parse_normal_register(Span::new(b"$_x")).unwrap_err(),
        ParseError { offset: 1, line: 1, col: 2 }
    );
    assert_eq!(
        parse_normal_register(Span::new(b"")).unwrap_err(),
        ParseError { offset: 0, line: 1, col: 1 }
    );
}

#[test]
fn registers_with_an_offset() {
    assert_eq!(register("4($sp)"), Offset(Value(4), Named("sp".to_string())));
    assert_eq!(register("0x10($29)"), Offset(Value(16), Numbered(29)));
    assert_eq!(register("-8 ( $fp )"), Offset(Minus(Box::new(Value(8))), Named("fp".to_string())));
    assert_eq!(
        register("SIZE+4\t(\t$t0\t)"),
        Offset(
            Sum(Box::new(Const("SIZE".to_string())), Box::new(Value(4))),
            Named("t0".to_string())
        )
    );
    assert_eq!(register("(4)($t0)"), Offset(Value(4), Named("t0".to_string())));
}

#[test]
fn an_omitted_offset_is_zero() {
    assert_eq!(register("($t0)"), Offset(Value(0), Named("t0".to_string())));
    assert_eq!(register("($t0)"), register("0($t0)"));
    assert_eq!(register("( $8 )"), register("0( $8 )"));
    assert_eq!(
        parse_offset_register(Span::new(b"($t0)")).unwrap().1,
        parse_offset_register(Span::new(b"0($t0)")).unwrap().1
    );
}

#[test]
fn the_register_in_parentheses_is_a_plain_one() {
    assert_eq!(
        parse_register(Span::new(b"4(8($t0))")).unwrap_err(),
        ParseError { offset: 2, line: 1, col: 3 }
    );
    assert_eq!(
        parse_register(Span::new(b"4(($t0))")).unwrap_err(),
        ParseError { offset: 2, line: 1, col: 3 }
    );
}

#[test]
fn offset_register_errors() {
    assert_eq!(
        parse_offset_register(Span::new(b"4 $t0")).unwrap_err(),
        ParseError { offset: 2, line: 1, col: 3 }
    );
    assert_eq!(
        parse_offset_register(Span::new(b"4($t0")).unwrap_err(),
        ParseError { offset: 5, line: 1, col: 6 }
    );
    assert_eq!(
        parse_offset_register(Span::new(b"4(\n$t0)")).unwrap_err(),
        ParseError { offset: 2, line: 1, col: 3 }
    );
    assert_eq!(
        parse_offset_register(Span::new(b"4($t0 ]")).unwrap_err(),
        ParseError { offset: 6, line: 1, col: 7 }
    );
    assert_eq!(
        parse_offset_register(Span::new(b"")).unwrap_err(),
        ParseError { offset: 0, line: 1, col: 1 }
    );
    assert_eq!(
        parse_register(Span::new(b"$")).unwrap_err(),
        ParseError { offset: 0, line: 1, col: 1 }
    );
}

#[test]
fn registers_are_written_as_they_are_read() {
    assert_eq!(Normal(Named("t0".to_string())).to_string(), "$t0");
    assert_eq!(Normal(Numbered(8)).to_string(), "$8");
    assert_eq!(Normal(Numbered(0)).to_string(), "$0");
    assert_eq!(Normal(Numbered(255)).to_string(), "$255");
    assert_eq!(Numbered(100).to_string(), "100");
    assert_eq!(Named("ra".to_string()).to_string(), "ra");
    assert_eq!(Offset(Value(4), Named("sp".to_string())).to_string(), "4($sp)");
    assert_eq!(
        Offset(
            Sum(Box::new(Const("SIZE".to_string())), Box::new(Minus(Box::new(Value(4))))),
            Numbered(29)
        )
        .to_string(),
        "(SIZE + -4)($29)"
    );
}

#[test]
fn register_text_parses_back_to_the_same_register() {
    for text in ["$t0", "$8", "$008", "$255", "$256", "$99999", "$zero", "$a0", "$0"] {
        let first = register(text);
        let again = register(&first.to_string());
        assert_eq!(first, again, "{:?}", text);
    }
    for text in ["($t0)", "4($sp)", "1 + 2 * 3($8)", "-x(\t$ra)", "(a | b) << 2($t1)"] {
        let first = register(text);
        let again = register(&first.to_string());
        assert_eq!(first, again, "{:?}", text);
    }
}

#[test]
fn get_identifier_of_both_forms() {
    assert_eq!(*register("$t0").get_identifier(), Named("t0".to_string()));
    assert_eq!(*register("12($7)").get_identifier(), Numbered(7));
}
