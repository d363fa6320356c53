use mipsy::constant::{
    parse_add_sub_value, parse_and_value, parse_constant, parse_constant_value,
    parse_minus_value, parse_mul_div_mod_value, parse_neg_value, parse_or_value,
    parse_plus_value, parse_shift_value, parse_unary_op_value, parse_value, parse_xor_value,
    BinaryOp, MpConstValue,
    MpConstValue::{And, Const, Div, Minus, Mod, Mult, Neg, Or, Shl, Shr, Sub, Sum, Value, Xor},
};
use mipsy::span::{ParseError, Span};

fn b<T>(t: T) -> Box<T> {
    Box::new(t)
}

fn parsed(text: &str) -> MpConstValue {
    parse_constant_value(Span::new(text.as_bytes())).unwrap().1
}

fn rest_of(text: &str) -> usize {
    parse_constant_value(Span::new(text.as_bytes()))
        .unwrap()
        .0
        .location_offset()
}

fn failure(text: &str) -> ParseError {
    parse_constant_value(Span::new(text.as_bytes())).unwrap_err()
}

#[test]
fn test_parse_const_value() {
    assert_eq!(
        parse_constant_value(Span::new("1".as_bytes())).unwrap().1,
        Value(1)
    );

    assert_eq!(
        parse_constant_value(Span::new("0x123".as_bytes())).unwrap().1,
        Value(0x123)
    );

    assert_eq!(
        parse_constant_value(Span::new("1 + 2 - 3 + 4 - 5".as_bytes())).unwrap().1,
        Sub(b(Sum(b(Sub(b(Sum(b(Value(1)), b(Value(2)))), b(Value(3)))), b(Value(4)))), b(Value(5)))
    );

    assert_eq!(
        parse_constant_value(Span::new("1 | 3 & 012 + 32 / 1 * 50 ^ ~5 - -3 % (3 >> 2 | abc + ++2 << 3)".as_bytes())).unwrap().1,
        Or(
            b(Value(1)),
            b(Xor(
                b(And(
                    b(Value(3)),
                    b(Sum(
                        b(Value(10)),
                        b(Mult(
                            b(Div(
                                b(Value(32)),
                                b(Value(1)))),
                            b(Value(50))
                        ))
                    ))
                )),
                b(Sub(
                    b(Neg(
                        b(Value(5))
                    )),
                    b(Mod(
                        b(Minus(
                            b(Value(3))
                        )),
                        b(Or(
                            b(Shr(
                                b(Value(3)),
                                b(Value(2))
                            )),
                            b(Shl(
                                b(Sum(
                                    b(Const("abc".to_string())),
                                    b(Value(2))
                                )),
                                b(Value(3)))
                            ))
                        ))
                    ))
                ))
            ))
    );
}

#[test]
fn additive_operators_join_to_the_left() {
    assert_eq!(
        parsed("a - b + c"),
        Sum(
            b(Sub(b(Const("a".to_string())), b(Const("b".to_string())))),
            b(Const("c".to_string()))
        )
    );
}

#[test]
fn every_level_joins_to_the_left() {
    assert_eq!(parsed("1|2|3"), Or(b(Or(b(Value(1)), b(Value(2)))), b(Value(3))));
    assert_eq!(parsed("1^2^3"), Xor(b(Xor(b(Value(1)), b(Value(2)))), b(Value(3))));
    assert_eq!(parsed("1&2&3"), And(b(And(b(Value(1)), b(Value(2)))), b(Value(3))));
    assert_eq!(parsed("1<<2>>3"), Shr(b(Shl(b(Value(1)), b(Value(2)))), b(Value(3))));
    assert_eq!(parsed("8/4%3*2"), Mult(b(Mod(b(Div(b(Value(8)), b(Value(4)))), b(Value(3)))), b(Value(2))));
}

#[test]
fn parentheses_reset_precedence() {
    assert_eq!(
        parsed("2 * (3 + 4)"),
        Mult(b(Value(2)), b(Sum(b(Value(3)), b(Value(4)))))
    );
    assert_eq!(
        parsed("2 * 3 + 4"),
        Sum(b(Mult(b(Value(2)), b(Value(3)))), b(Value(4)))
    );
    assert_eq!(parsed("( ( 7 ) )"), Value(7));
    assert_eq!(
        parsed("(1 | 2) * 3"),
        Mult(b(Or(b(Value(1)), b(Value(2)))), b(Value(3)))
    );
}

#[test]
fn prefix_operators_chain_and_bind_tightest() {
    assert_eq!(parsed("- -3"), Minus(b(Minus(b(Value(3))))));
    assert_eq!(parsed("~5 - -3"), Sub(b(Neg(b(Value(5)))), b(Minus(b(Value(3))))));
    assert_eq!(parsed("-~+-1"), Minus(b(Neg(b(Minus(b(Value(1))))))));
    assert_eq!(parsed("+ 4"), Value(4));
    assert_eq!(parsed("-2 * 3"), Mult(b(Minus(b(Value(2)))), b(Value(3))));
}

#[test]
fn precedence_runs_from_or_down_to_multiplication() {
    assert_eq!(
        parsed("1 | 2 ^ 3 & 4 << 5 + 6 * 7"),
        Or(
            b(Value(1)),
            b(Xor(
                b(Value(2)),
                b(And(
                    b(Value(3)),
                    b(Shl(b(Value(4)), b(Sum(b(Value(5)), b(Mult(b(Value(6)), b(Value(7)))))))),
                )),
            )),
        )
    );
}

#[test]
fn blank_space_and_comments_separate_tokens() {
    assert_eq!(
        parsed("1 # one\n\t+ # plus\r\n 2"),
        Sum(b(Value(1)), b(Value(2)))
    );
    assert_eq!(parsed("(\n3\n)"), Value(3));
    assert_eq!(parsed("-   # sign\n 9"), Minus(b(Value(9))));
}

#[test]
fn an_operator_without_operand_is_left_unread() {
    assert_eq!(parsed("1 + "), Value(1));
    assert_eq!(rest_of("1 + "), 1);
    assert_eq!(rest_of("1 + 2 * "), 5);
    assert_eq!(rest_of("7 ) rest"), 1);
    assert_eq!(rest_of("1 <"), 1);
    assert_eq!(parsed("1 < < 2"), Value(1));
}

#[test]
fn atoms_are_literals_names_and_parentheses() {
    assert_eq!(parsed("4294967295"), Value(4294967295));
    assert_eq!(parsed("0b101"), Value(5));
    assert_eq!(parsed("0XfF"), Value(255));
    assert_eq!(parsed("017"), Value(15));
    assert_eq!(parsed("'a'"), Value(97));
    assert_eq!(parsed("'\\n'"), Value(10));
    assert_eq!(parsed("_start0"), Const("_start0".to_string()));
    assert_eq!(parsed("(x)"), Const("x".to_string()));
}

#[test]
fn expression_errors_point_at_the_offending_byte() {
    assert_eq!(failure(""), ParseError { offset: 0, line: 1, col: 1 });
    assert_eq!(failure("*"), ParseError { offset: 0, line: 1, col: 1 });
    assert_eq!(failure("(1 + 2"), ParseError { offset: 6, line: 1, col: 7 });
    assert_eq!(failure("(1\n  ]"), ParseError { offset: 5, line: 2, col: 3 });
    assert_eq!(failure("(\n\n*)"), ParseError { offset: 3, line: 3, col: 1 });
    assert_eq!(failure("4294967296"), ParseError { offset: 0, line: 1, col: 1 });
    assert_eq!(failure("- )"), ParseError { offset: 0, line: 1, col: 1 });
    assert_eq!(failure("()"), ParseError { offset: 1, line: 1, col: 2 });
}

#[test]
fn each_level_has_its_own_parser() {
    let text = "1 | 2 ^ 3 & 4 << 5 + 6 * -7";
    let at = |n: usize| Span::new(text.as_bytes()).advance(n);
    assert_eq!(parse_or_value(at(0)).unwrap().0.location_offset(), text.len());
    assert_eq!(
        parse_xor_value(at(0)).unwrap(),
        (at(1), Value(1)),
    );
    assert_eq!(parse_xor_value(at(4)).unwrap().0.location_offset(), text.len());
    assert_eq!(parse_and_value(at(4)).unwrap().1, Value(2));
    assert_eq!(parse_and_value(at(8)).unwrap().0.location_offset(), text.len());
    assert_eq!(parse_shift_value(at(8)).unwrap().1, Value(3));
    assert_eq!(
        parse_shift_value(at(12)).unwrap().1,
        Shl(b(Value(4)), b(Sum(b(Value(5)), b(Mult(b(Value(6)), b(Minus(b(Value(7)))))))))
    );
    assert_eq!(parse_add_sub_value(at(12)).unwrap().1, Value(4));
    assert_eq!(
        parse_add_sub_value(at(17)).unwrap().1,
        Sum(b(Value(5)), b(Mult(b(Value(6)), b(Minus(b(Value(7)))))))
    );
    assert_eq!(parse_mul_div_mod_value(at(17)).unwrap().1, Value(5));
    assert_eq!(
        parse_mul_div_mod_value(at(21)).unwrap().1,
        Mult(b(Value(6)), b(Minus(b(Value(7)))))
    );
    assert_eq!(parse_unary_op_value(at(25)).unwrap().1, Minus(b(Value(7))));
    assert_eq!(parse_minus_value(at(25)).unwrap().1, Minus(b(Value(7))));
    assert!(parse_plus_value(at(25)).is_err());
    assert!(parse_neg_value(at(25)).is_err());
    assert!(parse_value(at(25)).is_err());
    assert_eq!(parse_value(at(26)).unwrap().1, Value(7));
    assert_eq!(parse_plus_value(Span::new(b"+ 1")).unwrap().1, Value(1));
    assert_eq!(parse_neg_value(Span::new(b"~1")).unwrap().1, Neg(b(Value(1))));
    assert!(parse_minus_value(Span::new(b"1")).is_err());
}

#[test]
fn binary_builds_the_named_variant() {
    assert_eq!(
        MpConstValue::binary(BinaryOp::Shr, Value(1), Value(2)),
        Shr(b(Value(1)), b(Value(2)))
    );
    assert_eq!(
        MpConstValue::binary(BinaryOp::Mod, Value(1), Value(2)),
        Mod(b(Value(1)), b(Value(2)))
    );
    let tree = Sum(b(Value(1)), b(Const("x".to_string())));
    assert_eq!(tree.clone(), tree);
    assert_eq!(tree.as_binary(), Some((BinaryOp::Sum, &Value(1), &Const("x".to_string()))));
    assert_eq!(tree.as_unary(), None);
}

#[test]
fn constant_definition_records_its_span() {
    let text = "# sizes\n  SIZE = 4 * (2 + 1)  # twelve\nnext";
    let (rest, def) = parse_constant(Span::new(text.as_bytes()).advance(10)).unwrap();
    assert_eq!(def.label(), "SIZE");
    assert_eq!(
        *def.value(),
        Mult(b(Value(4)), b(Sum(b(Value(2)), b(Value(1)))))
    );
    assert_eq!(def.line(), 2);
    assert_eq!(def.col(), 3);
    assert_eq!(def.line_end(), 2);
    assert_eq!(def.col_end(), 21);
    assert_eq!(rest.location_offset(), 28);
}

#[test]
fn constant_definition_may_span_lines() {
    let (rest, def) = parse_constant(Span::new(b"A\n=\n1 +\n2")).unwrap();
    assert_eq!(def.label(), "A");
    assert_eq!(*def.value(), Sum(b(Value(1)), b(Value(2))));
    assert_eq!((def.line(), def.col()), (1, 1));
    assert_eq!((def.line_end(), def.col_end()), (4, 2));
    assert_eq!(rest.remaining(), 0);
}

#[test]
fn constant_definition_may_name_what_is_not_defined_yet() {
    let (_, def) = parse_constant(Span::new(b"first = second + first")).unwrap();
    assert_eq!(
        *def.value(),
        Sum(b(Const("second".to_string())), b(Const("first".to_string())))
    );
}

#[test]
fn constant_definition_errors() {
    assert_eq!(
        parse_constant(Span::new(b"1 = 2")).unwrap_err(),
        ParseError { offset: 0, line: 1, col: 1 }
    );
    assert_eq!(
        parse_constant(Span::new(b"x : 2")).unwrap_err(),
        ParseError { offset: 2, line: 1, col: 3 }
    );
    assert_eq!(
        parse_constant(Span::new(b"x")).unwrap_err(),
        ParseError { offset: 1, line: 1, col: 2 }
    );
    assert_eq!(
        parse_constant(Span::new(b"x =\n ;")).unwrap_err(),
        ParseError { offset: 5, line: 2, col: 2 }
    );
}

#[test]
fn expressions_are_written_so_that_they_read_back() {
    assert_eq!(Value(0).to_string(), "0");
    assert_eq!(Value(4294967295).to_string(), "4294967295");
    assert_eq!(Const("abc".to_string()).to_string(), "abc");
    assert_eq!(Minus(b(Minus(b(Value(3))))).to_string(), "--3");
    assert_eq!(Neg(b(Const("x".to_string()))).to_string(), "~x");
    assert_eq!(parsed("1 + 2 - 3").to_string(), "((1 + 2) - 3)");
    assert_eq!(parsed("1+2*3").to_string(), "(1 + (2 * 3))");
    assert_eq!(parsed("a<<b>>c").to_string(), "((a << b) >> c)");
    assert_eq!(parsed("1|2^3&4").to_string(), "(1 | (2 ^ (3 & 4)))");
    assert_eq!(parsed("-(8/4%3)").to_string(), "-((8 / 4) % 3)");
    for text in [
        "1",
        "0x123",
        "'a'",
        "name_1",
        "1 + 2 - 3 + 4 - 5",
        "1 | 3 & 012 + 32 / 1 * 50 ^ ~5 - -3 % (3 >> 2 | abc + ++2 << 3)",
        "2 * (3 + 4)",
        "- - - 1",
        "~(a | b) & 0xff",
        "((((1))))",
    ] {
        let first = parsed(text);
        let written = first.to_string();
        let (rest, again) = parse_constant_value(Span::new(written.as_bytes())).unwrap();
        assert_eq!(again, first, "{:?}", text);
        assert_eq!(rest.remaining(), 0, "{:?}", text);
    }
}
