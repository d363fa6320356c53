//! What is written out reads back: the text of an expression or of a
//! register operand, parsed again, gives the expression or the operand that
//! was written, and takes the whole text.

use crate::constant::{
    binary, fold_chain, lemma_chain_within, lemma_operand_alone, operator_at, spec_atom,
    spec_chain, spec_constant_value, spec_operand, spec_prefixed, spec_rest, spec_unary, BinaryOp,
    ConstExpr, Level, UnaryOp, CLOSE, MINUS, OPEN, PLUS, TILDE,
};
use crate::lex::{
    as_chars, blank_end, digits_value, is_alpha, is_digit, is_ident_start, is_space,
    lemma_digits_value_moves, lemma_run_end, lemma_run_stops, number_form, run_end, skip_blank,
    spec_char, spec_ident, spec_u32, ByteClass, Radix, HASH, ZERO,
};
use crate::register::{
    identifier_text, register_text, spec_normal_register, spec_offset, spec_register, RegisterId,
    RegisterOperand,
};
use crate::text::{as_bytes, decimal, expr_text, lemma_decimal_reads_back, operator_text};
use vstd::prelude::*;

verus! {

/// Whether `name` can stand as a name in source text: a letter or `_`, then
/// letters, digits and `_`, all of them ASCII.
pub open spec fn is_name(name: Seq<char>) -> bool {
    &&& name.len() >= 1
    &&& is_ident_start(name[0] as u8)
    &&& forall|k: int|
        0 <= k < name.len() ==> ByteClass::IdentPart.holds(#[trigger] name[k] as u8) && (name[k] as u8) as char
            == name[k]
}

/// Whether an expression can be written in source text: its literals fit 32
/// bits and its names are names.
pub open spec fn writable(e: ConstExpr) -> bool
    decreases e,
{
    match e {
        ConstExpr::Value(v) => v <= u32::MAX,
        ConstExpr::Const(name) => is_name(name),
        ConstExpr::Unary(_, operand) => writable(*operand),
        ConstExpr::Binary(_, left, right) => writable(*left) && writable(*right),
    }
}

/// Whether `s` holds `text` at `pos`, byte for character.
pub open spec fn holds_at(s: Seq<u8>, pos: int, text: Seq<char>) -> bool {
    &&& 0 <= pos
    &&& pos + text.len() <= s.len()
    &&& forall|k: int| pos <= k < pos + text.len() ==> #[trigger] s[k] == text[k - pos] as u8
}

/// Whether a token that ends before `end` cannot go on there: the input
/// ends, or what stands there is neither letter, digit nor `_`.
pub open spec fn token_ends(s: Seq<u8>, end: int) -> bool {
    end >= s.len() || !ByteClass::IdentPart.holds(s[end])
}

/// Whether no binary operator follows `pos`, blank space aside.
pub open spec fn no_operator(s: Seq<u8>, pos: int) -> bool {
    forall|level: Level| operator_at(s, blank_end(s, pos), level) is None
}

/// The level that a binary operator belongs to.
pub open spec fn level_of(op: BinaryOp) -> Level {
    match op {
        BinaryOp::Or => Level::Or,
        BinaryOp::Xor => Level::Xor,
        BinaryOp::And => Level::And,
        BinaryOp::Shl => Level::Shift,
        BinaryOp::Shr => Level::Shift,
        BinaryOp::Sum => Level::AddSub,
        BinaryOp::Sub => Level::AddSub,
        BinaryOp::Mult => Level::MulDivMod,
        BinaryOp::Div => Level::MulDivMod,
        BinaryOp::Mod => Level::MulDivMod,
    }
}

/// A number above zero is written without a leading zero.
proof fn lemma_decimal_leads(n: nat)
    requires
        n > 0,
    ensures
        decimal(n).len() >= 1,
        is_digit(as_bytes(decimal(n))[0]),
        as_bytes(decimal(n))[0] != ZERO,
    decreases n,
{
    if n >= 10 {
        lemma_decimal_leads(n / 10);
        assert(as_bytes(decimal(n))[0] == as_bytes(decimal(n / 10))[0]);
    }
}

/// The text of an expression is not empty and starts with a digit, a
/// letter or `_`, a prefix operator, or `(`: never with blank space or a
/// comment, nor with `$`, `+` or a quote.
proof fn lemma_text_starts(e: ConstExpr)
    requires
        writable(e),
    ensures
        expr_text(e).len() >= 1,
        ({
            let b = expr_text(e)[0] as u8;
            is_digit(b) || is_ident_start(b) || b == MINUS || b == TILDE || b == OPEN
        }),
{
    match e {
        ConstExpr::Value(v) => {
            if v > 0 {
                lemma_decimal_leads(v as nat);
                assert(expr_text(e)[0] as u8 == as_bytes(decimal(v as nat))[0]);
            }
        },
        ConstExpr::Const(name) => {},
        ConstExpr::Unary(op, operand) => {},
        ConstExpr::Binary(op, left, right) => {},
    }
}

/// Where no bytes are blank or open a comment, nothing is skipped.
proof fn lemma_nothing_to_skip(s: Seq<u8>, pos: int)
    requires
        pos >= s.len() || pos < 0 || !(is_space(s[pos]) || s[pos] == HASH),
    ensures
        blank_end(s, pos) == pos,
{
}

/// One space before a byte that is neither blank nor opens a comment is all
/// that is skipped.
proof fn lemma_one_space(s: Seq<u8>, pos: int)
    requires
        0 <= pos,
        pos + 1 < s.len(),
        s[pos] == 32,
        !(is_space(s[pos + 1]) || s[pos + 1] == HASH),
    ensures
        blank_end(s, pos) == pos + 1,
{
    reveal_with_fuel(skip_blank, 2);
}

/// An expression with prefix operators that no binary operator follows is
/// an expression of every level.
proof fn lemma_unary_is_chain(s: Seq<u8>, pos: int, level: Level)
    requires
        spec_unary(s, pos) matches Ok((_, next)) && pos < next <= s.len() && no_operator(s, next),
    ensures
        spec_chain(s, pos, level) == spec_unary(s, pos),
        spec_operand(s, pos, level) == spec_unary(s, pos),
    decreases 6 - level.rank(),
{
    match level.tighter() {
        Some(tighter) => lemma_unary_is_chain(s, pos, tighter),
        None => {},
    }
    let next = spec_unary(s, pos)->Ok_0.1;
    assert(operator_at(s, blank_end(s, next), level) is None);
    lemma_operand_alone(s, pos, level);
}

/// A literal written in decimal reads back as that literal.
proof fn lemma_literal_reads_back(v: u64, s: Seq<u8>, pos: int)
    requires
        v <= u32::MAX,
        holds_at(s, pos, decimal(v as nat)),
        token_ends(s, pos + decimal(v as nat).len()),
    ensures
        spec_unary(s, pos) == Ok::<(ConstExpr, int), int>(
            (ConstExpr::Value(v), pos + decimal(v as nat).len()),
        ),
{
    let text = decimal(v as nat);
    let end = pos + text.len();
    let before = s.subrange(0, pos);
    lemma_decimal_reads_back(v as nat, before);
    let whole = before + as_bytes(text);
    assert forall|k: int| pos <= k < end implies #[trigger] s[k] == whole[k + 0] && is_digit(s[k]) by {
        assert(whole[k] == as_bytes(text)[k - pos]);
    }
    lemma_digits_value_moves(s, pos, end, whole, 0, 10);
    assert(digits_value(s, pos, end, 10) == v);
    lemma_run_stops(s, pos, end, ByteClass::Digit);
    if v > 0 {
        lemma_decimal_leads(v as nat);
        assert(s[pos] == as_bytes(text)[0]);
    } else {
        assert(text.len() == 1);
        assert(s[pos] == ZERO);
    }
    assert(number_form(s, pos) == Some((Radix::Decimal, pos)));
    assert(spec_u32(s, pos) == Ok::<(u32, int), int>((v as u32, end)));
    assert(spec_prefixed(s, pos, PLUS) is Err);
    assert(spec_prefixed(s, pos, MINUS) is Err);
    assert(spec_prefixed(s, pos, TILDE) is Err);
}

/// A name reads back as that name.
proof fn lemma_name_reads_back(name: Seq<char>, s: Seq<u8>, pos: int)
    requires
        is_name(name),
        holds_at(s, pos, name),
        token_ends(s, pos + name.len()),
    ensures
        spec_unary(s, pos) == Ok::<(ConstExpr, int), int>((ConstExpr::Const(name), pos + name.len())),
{
    let end = pos + name.len();
    assert(s[pos] == name[0] as u8);
    assert forall|k: int| pos + 1 <= k < end implies ByteClass::IdentPart.holds(#[trigger] s[k]) by {
        assert(s[k] == name[k - pos] as u8);
    }
    lemma_run_stops(s, pos + 1, end, ByteClass::IdentPart);
    assert(as_chars(s.subrange(pos, end)) =~= name) by {
        assert forall|k: int| 0 <= k < name.len() implies as_chars(s.subrange(pos, end))[k]
            == name[k] by {
            assert(s[pos + k] == name[k] as u8);
        }
    }
    assert(number_form(s, pos) is None);
    assert(spec_u32(s, pos) is Err);
    assert(spec_char(s, pos) is Err);
    assert(spec_ident(s, pos) == Ok::<(Seq<char>, int), int>((name, end)));
    assert(spec_prefixed(s, pos, PLUS) is Err);
    assert(spec_prefixed(s, pos, MINUS) is Err);
    assert(spec_prefixed(s, pos, TILDE) is Err);
}

/// Where an input holds two texts one behind the other, it holds each.
proof fn lemma_holds_parts(s: Seq<u8>, pos: int, first: Seq<char>, second: Seq<char>)
    requires
        holds_at(s, pos, first + second),
    ensures
        holds_at(s, pos, first),
        holds_at(s, pos + first.len(), second),
{
    let both = first + second;
    assert forall|k: int| pos <= k < pos + first.len() implies #[trigger] s[k] == first[k - pos] as u8 by {
        assert(both[k - pos] == first[k - pos]);
    }
    assert forall|k: int|
        pos + first.len() <= k < pos + first.len() + second.len() implies #[trigger] s[k]
        == second[k - (pos + first.len())] as u8 by {
        assert(both[k - pos] == second[k - pos - first.len()]);
    }
}

/// The sign of an operator is read as that operator at its own level, and
/// as no operator at any other.
proof fn lemma_operator_reads_back(op: BinaryOp, s: Seq<u8>, pos: int)
    requires
        holds_at(s, pos, operator_text(op)),
    ensures
        forall|level: Level|
            #[trigger] operator_at(s, pos, level) == if level == level_of(op) {
                Some((op, operator_text(op).len() as int))
            } else {
                None
            },
        !(is_space(s[pos]) || s[pos] == HASH),
        1 <= operator_text(op).len() <= 2,
{
    assert(s[pos] == operator_text(op)[0] as u8);
    if operator_text(op).len() == 2 {
        assert(s[pos + 1] == operator_text(op)[1] as u8);
    }
}

/// Nothing that closes a parenthesis is an operator.
proof fn lemma_close_is_no_operator(s: Seq<u8>, pos: int)
    requires
        0 <= pos < s.len(),
        s[pos] == CLOSE || s[pos] == OPEN,
    ensures
        no_operator(s, pos),
        blank_end(s, pos) == pos,
{
}

/// Two expressions with an operator between them, one space on each side
/// of it and a parenthesis behind them, are read at the operator's level
/// and at every looser one as the operator applied to the two, and at every
/// tighter level as the first of them alone.
proof fn lemma_joined_reads_back(
    s: Seq<u8>,
    pos: int,
    left: ConstExpr,
    space: int,
    op: BinaryOp,
    at: int,
    right: ConstExpr,
    end: int,
    level: Level,
)
    requires
        spec_unary(s, pos) == Ok::<(ConstExpr, int), int>((left, space)),
        0 <= pos < space,
        s[space] == 32,
        holds_at(s, space + 1, operator_text(op)),
        s[space + 1 + operator_text(op).len()] == 32,
        at == space + 2 + operator_text(op).len(),
        !(is_space(s[at]) || s[at] == HASH),
        spec_unary(s, at) == Ok::<(ConstExpr, int), int>((right, end)),
        at < end < s.len(),
        s[end] == CLOSE,
    ensures
        spec_chain(s, pos, level) == if level.rank() > level_of(op).rank() {
            Ok::<(ConstExpr, int), int>((left, space))
        } else {
            Ok::<(ConstExpr, int), int>((binary(op, left, right), end))
        },
    decreases 6 - level.rank(),
{
    let width = operator_text(op).len() as int;
    lemma_operator_reads_back(op, s, space + 1);
    lemma_one_space(s, space);
    lemma_one_space(s, space + 1 + width);
    lemma_close_is_no_operator(s, end);
    match level.tighter() {
        Some(tighter) => lemma_joined_reads_back(s, pos, left, space, op, at, right, end, tighter),
        None => {},
    }
    assert(operator_at(s, space + 1, level) == if level == level_of(op) {
        Some((op, width))
    } else {
        None
    });
    if level.rank() > level_of(op).rank() {
        assert(spec_operand(s, pos, level) == Ok::<(ConstExpr, int), int>((left, space)));
        assert(spec_rest(s, space, level) == (Seq::<(BinaryOp, ConstExpr)>::empty(), space));
        assert(fold_chain(left, Seq::empty()) == left);
    } else if level == level_of(op) {
        assert(spec_operand(s, pos, level) == Ok::<(ConstExpr, int), int>((left, space)));
        lemma_unary_is_chain(s, at, level);
        assert(spec_operand(s, at, level) == Ok::<(ConstExpr, int), int>((right, end)));
        assert(operator_at(s, blank_end(s, end), level) is None);
        assert(spec_rest(s, end, level) == (Seq::<(BinaryOp, ConstExpr)>::empty(), end));
        let items = seq![(op, right)] + Seq::<(BinaryOp, ConstExpr)>::empty();
        assert(spec_rest(s, space, level) == (items, end));
        assert(items.len() == 1);
        assert(items.last() == (op, right));
        assert(items.drop_last() =~= Seq::<(BinaryOp, ConstExpr)>::empty());
        assert(fold_chain(left, items.drop_last()) == left);
        assert(fold_chain(left, items) == binary(op, left, right));
    } else {
        assert(spec_operand(s, pos, level) == Ok::<(ConstExpr, int), int>(
            (binary(op, left, right), end),
        ));
        assert(operator_at(s, blank_end(s, end), level) is None);
        assert(spec_rest(s, end, level) == (Seq::<(BinaryOp, ConstExpr)>::empty(), end));
        assert(fold_chain(binary(op, left, right), Seq::empty()) == binary(op, left, right));
    }
}

/// An expression that stands written in an input, where no token can go on
/// behind it, is read there as that expression.
pub proof fn lemma_written_reads_back(e: ConstExpr, s: Seq<u8>, pos: int)
    requires
        writable(e),
        holds_at(s, pos, expr_text(e)),
        token_ends(s, pos + expr_text(e).len()),
    ensures
        spec_unary(s, pos) == Ok::<(ConstExpr, int), int>((e, pos + expr_text(e).len())),
    decreases e,
{
    let end = pos + expr_text(e).len();
    match e {
        ConstExpr::Value(v) => {
            lemma_literal_reads_back(v, s, pos);
        },
        ConstExpr::Const(name) => {
            lemma_name_reads_back(name, s, pos);
        },
        ConstExpr::Unary(op, operand) => {
            let sign = seq![crate::text::prefix_char(op)];
            lemma_holds_parts(s, pos, sign, expr_text(*operand));
            lemma_text_starts(*operand);
            assert(s[pos] == sign[0] as u8);
            assert(s[pos + 1] == expr_text(*operand)[0] as u8);
            lemma_nothing_to_skip(s, pos + 1);
            lemma_written_reads_back(*operand, s, pos + 1);
            assert(spec_prefixed(s, pos, PLUS) is Err);
            match op {
                UnaryOp::Minus => {
                    assert(spec_prefixed(s, pos, MINUS) == Ok::<(ConstExpr, int), int>(
                        (*operand, end),
                    ));
                },
                UnaryOp::Neg => {
                    assert(spec_prefixed(s, pos, MINUS) is Err);
                    assert(spec_prefixed(s, pos, TILDE) == Ok::<(ConstExpr, int), int>(
                        (*operand, end),
                    ));
                },
            }
        },
        ConstExpr::Binary(op, left, right) => {
            let open = seq!['('];
            let gap = seq![' '];
            let close = seq![')'];
            let sign = operator_text(op);
            let a = open + expr_text(*left);
            let b = a + gap;
            let c = b + sign;
            let d = c + gap;
            let f = d + expr_text(*right);
            assert(expr_text(e) == f + close);
            lemma_holds_parts(s, pos, f, close);
            lemma_holds_parts(s, pos, d, expr_text(*right));
            lemma_holds_parts(s, pos, c, gap);
            lemma_holds_parts(s, pos, b, sign);
            lemma_holds_parts(s, pos, a, gap);
            lemma_holds_parts(s, pos, open, expr_text(*left));
            let space = pos + a.len();
            let at = pos + d.len();
            let last = pos + f.len();
            assert(s[pos] == open[0] as u8);
            assert(s[space] == gap[0] as u8);
            assert(s[pos + c.len()] == gap[0] as u8);
            assert(s[last] == close[0] as u8);
            lemma_text_starts(*left);
            lemma_text_starts(*right);
            assert(s[pos + 1] == expr_text(*left)[0] as u8);
            assert(s[at] == expr_text(*right)[0] as u8);
            lemma_written_reads_back(*left, s, pos + 1);
            lemma_written_reads_back(*right, s, at);
            lemma_joined_reads_back(s, pos + 1, *left, space, op, at, *right, last, Level::Or);
            lemma_nothing_to_skip(s, pos + 1);
            lemma_close_is_no_operator(s, last);
            assert(binary(op, *left, *right) == e);
            assert(spec_chain(s, pos + 1, Level::Or) == Ok::<(ConstExpr, int), int>((e, last)));
            assert(number_form(s, pos) is None);
            assert(spec_u32(s, pos) is Err);
            assert(spec_char(s, pos) is Err);
            assert(spec_ident(s, pos) is Err);
            assert(spec_atom(s, pos) == Ok::<(ConstExpr, int), int>((e, last + 1)));
            assert(spec_prefixed(s, pos, PLUS) is Err);
            assert(spec_prefixed(s, pos, MINUS) is Err);
            assert(spec_prefixed(s, pos, TILDE) is Err);
        },
    }
}

/// An expression written out and parsed again is the same expression, and
/// the whole text is taken.
pub proof fn lemma_expression_round_trip(e: ConstExpr)
    requires
        writable(e),
    ensures
        spec_constant_value(as_bytes(expr_text(e)), 0) == Ok::<(ConstExpr, int), int>(
            (e, expr_text(e).len() as int),
        ),
{
    let s = as_bytes(expr_text(e));
    lemma_written_reads_back(e, s, 0);
    lemma_text_starts(e);
    lemma_nothing_to_skip(s, s.len() as int);
    lemma_unary_is_chain(s, 0, Level::Or);
}

/// Joining writable operands gives a writable expression.
proof fn lemma_fold_writable(first: ConstExpr, items: Seq<(BinaryOp, ConstExpr)>)
    requires
        writable(first),
        forall|k: int| 0 <= k < items.len() ==> writable((#[trigger] items[k]).1),
    ensures
        writable(fold_chain(first, items)),
    decreases items.len(),
{
    if items.len() > 0 {
        assert forall|k: int| 0 <= k < items.drop_last().len() implies writable(
            (#[trigger] items.drop_last()[k]).1,
        ) by {
            assert(items.drop_last()[k] == items[k]);
        }
        lemma_fold_writable(first, items.drop_last());
        assert(writable(items[items.len() - 1].1));
    }
}

/// Whatever the grammar reads at a level can be written.
pub proof fn lemma_chain_writable(s: Seq<u8>, pos: int, level: Level)
    requires
        0 <= pos <= s.len(),
    ensures
        spec_chain(s, pos, level) matches Ok((e, _)) ==> writable(e),
    decreases s.len() - pos, 4 * (6 - level.rank()) + 2,
{
    lemma_operand_writable(s, pos, level);
    if let Ok((first, next)) = spec_operand(s, pos, level) {
        if pos < next <= s.len() {
            lemma_rest_writable(s, next, level);
            lemma_fold_writable(first, spec_rest(s, next, level).0);
        }
    }
}

/// Whatever the grammar reads as an operand can be written.
proof fn lemma_operand_writable(s: Seq<u8>, pos: int, level: Level)
    requires
        0 <= pos <= s.len(),
    ensures
        spec_operand(s, pos, level) matches Ok((e, _)) ==> writable(e),
    decreases s.len() - pos, 4 * (6 - level.rank()) + 1,
{
    match level.tighter() {
        Some(next) => lemma_chain_writable(s, pos, next),
        None => lemma_unary_writable(s, pos),
    }
}

/// Whatever the grammar reads behind operators can be written.
proof fn lemma_rest_writable(s: Seq<u8>, pos: int, level: Level)
    requires
        0 <= pos <= s.len(),
    ensures
        forall|k: int|
            0 <= k < spec_rest(s, pos, level).0.len() ==> writable(
                (#[trigger] spec_rest(s, pos, level).0[k]).1,
            ),
    decreases s.len() - pos, 4 * (6 - level.rank()) + 2,
{
    if let Some((op, width)) = operator_at(s, blank_end(s, pos), level) {
        let at = blank_end(s, blank_end(s, pos) + width);
        if pos < at <= s.len() {
            lemma_operand_writable(s, at, level);
            if let Ok((right, next)) = spec_operand(s, at, level) {
                if at < next <= s.len() {
                    lemma_rest_writable(s, next, level);
                    let more = spec_rest(s, next, level).0;
                    let items = seq![(op, right)] + more;
                    assert forall|k: int| 0 <= k < items.len() implies writable(
                        (#[trigger] items[k]).1,
                    ) by {
                        if k > 0 {
                            assert(items[k] == more[k - 1]);
                        }
                    }
                }
            }
        }
    }
}

/// Whatever the grammar reads behind a prefix operator can be written.
proof fn lemma_prefixed_writable(s: Seq<u8>, pos: int, mark: u8)
    requires
        0 <= pos <= s.len(),
    ensures
        spec_prefixed(s, pos, mark) matches Ok((e, _)) ==> writable(e),
    decreases s.len() - pos, 2int,
{
    if pos < s.len() && s[pos] == mark {
        let at = blank_end(s, pos + 1);
        if pos < at <= s.len() {
            lemma_unary_writable(s, at);
        }
    }
}

/// Whatever the grammar reads with prefix operators can be written.
proof fn lemma_unary_writable(s: Seq<u8>, pos: int)
    requires
        0 <= pos <= s.len(),
    ensures
        spec_unary(s, pos) matches Ok((e, _)) ==> writable(e),
    decreases s.len() - pos, 3int,
{
    lemma_prefixed_writable(s, pos, PLUS);
    lemma_prefixed_writable(s, pos, MINUS);
    lemma_prefixed_writable(s, pos, TILDE);
    lemma_atom_writable(s, pos);
}

/// Whatever the grammar reads as an atom can be written.
proof fn lemma_atom_writable(s: Seq<u8>, pos: int)
    requires
        0 <= pos <= s.len(),
    ensures
        spec_atom(s, pos) matches Ok((e, _)) ==> writable(e),
    decreases s.len() - pos, 1int,
{
    if let Ok((name, end)) = spec_ident(s, pos) {
        lemma_run_end(s, pos + 1, ByteClass::IdentPart);
        assert forall|k: int| 0 <= k < name.len() implies ByteClass::IdentPart.holds(
            #[trigger] name[k] as u8,
        ) && (name[k] as u8) as char == name[k] by {
            assert(name[k] == s[pos + k] as char);
        }
        assert(name[0] == s[pos] as char);
    }
    if pos < s.len() && s[pos] == OPEN {
        let at = blank_end(s, pos + 1);
        if pos < at <= s.len() {
            lemma_chain_writable(s, at, Level::Or);
        }
    }
}

/// An expression that was parsed, written out and parsed again is the same
/// expression: whatever input it was first read from, its text reads back
/// as it, and the whole text is taken.
pub proof fn lemma_parsed_expression_round_trip(s: Seq<u8>, pos: int)
    requires
        0 <= pos <= s.len(),
        spec_constant_value(s, pos) is Ok,
    ensures
        ({
            let e = spec_constant_value(s, pos)->Ok_0.0;
            spec_constant_value(as_bytes(expr_text(e)), 0) == Ok::<(ConstExpr, int), int>(
                (e, expr_text(e).len() as int),
            )
        }),
{
    lemma_chain_writable(s, pos, Level::Or);
    lemma_expression_round_trip(spec_constant_value(s, pos)->Ok_0.0);
}

/// Whether a register can be written in source text and read back as
/// itself: any number; a name of ASCII letters and digits that starts with
/// a letter; and a name of digits alone that write a number above 255.
pub open spec fn writable_register(id: RegisterId) -> bool {
    match id {
        RegisterId::Numbered(_) => true,
        RegisterId::Named(name) => {
            &&& name.len() >= 1
            &&& forall|k: int| 0 <= k < name.len() ==> (#[trigger] name[k] as u8) as char == name[k]
            &&& {
                ||| (is_alpha(name[0] as u8) && forall|k: int|
                    0 <= k < name.len() ==> ByteClass::Alphanumeric.holds(#[trigger] name[k] as u8))
                ||| ((forall|k: int| 0 <= k < name.len() ==> is_digit(#[trigger] name[k] as u8))
                    && digits_value(as_bytes(name), 0, name.len() as int, 10) > 255)
            }
        },
    }
}

/// Whether a register operand can be written in source text and read back
/// as itself.
pub open spec fn writable_operand(r: RegisterOperand) -> bool {
    match r {
        RegisterOperand::Normal(id) => writable_register(id),
        RegisterOperand::Offset(offset, id) => writable(offset) && writable_register(id),
    }
}

/// A register that stands written in an input, where its name or number
/// cannot go on behind it, is read there as that register.
pub proof fn lemma_register_reads_back(id: RegisterId, s: Seq<u8>, pos: int)
    requires
        writable_register(id),
        holds_at(s, pos, seq!['$'] + identifier_text(id)),
        pos + 1 + identifier_text(id).len() < s.len() ==> !ByteClass::Alphanumeric.holds(
            s[pos + 1 + identifier_text(id).len()],
        ),
    ensures
        spec_normal_register(s, pos) == Ok::<(RegisterOperand, int), int>(
            (RegisterOperand::Normal(id), pos + 1 + identifier_text(id).len()),
        ),
{
    let text = identifier_text(id);
    let end = pos + 1 + text.len();
    lemma_holds_parts(s, pos, seq!['$'], text);
    assert(s[pos] == seq!['$'][0] as u8);
    match id {
        RegisterId::Numbered(n) => {
            let before = s.subrange(0, pos + 1);
            lemma_decimal_reads_back(n as nat, before);
            let whole = before + as_bytes(text);
            assert forall|k: int| pos + 1 <= k < end implies #[trigger] s[k] == whole[k + 0]
                && ByteClass::Digit.holds(s[k]) by {
                assert(whole[k] == as_bytes(text)[k - (pos + 1)]);
            }
            lemma_digits_value_moves(s, pos + 1, end, whole, 0, 10);
            lemma_run_stops(s, pos + 1, end, ByteClass::Digit);
            assert(is_digit(s[pos + 1]));
        },
        RegisterId::Named(name) => {
            assert(as_chars(s.subrange(pos + 1, end)) =~= name) by {
                assert forall|k: int| 0 <= k < name.len() implies as_chars(
                    s.subrange(pos + 1, end),
                )[k] == name[k] by {
                    assert(s[pos + 1 + k] == name[k] as u8);
                }
            }
            assert(s[pos + 1] == name[0] as u8);
            if is_alpha(name[0] as u8) {
                assert forall|k: int| pos + 1 <= k < end implies ByteClass::Alphanumeric.holds(
                    #[trigger] s[k],
                ) by {
                    assert(s[k] == name[k - (pos + 1)] as u8);
                }
                lemma_run_stops(s, pos + 1, end, ByteClass::Alphanumeric);
            } else {
                assert forall|k: int| pos + 1 <= k < end implies ByteClass::Digit.holds(
                    #[trigger] s[k],
                ) by {
                    assert(s[k] == name[k - (pos + 1)] as u8);
                }
                lemma_run_stops(s, pos + 1, end, ByteClass::Digit);
                assert forall|k: int| pos + 1 <= k < end implies #[trigger] s[k] == as_bytes(
                    name,
                )[k + (-(pos + 1))] by {
                    assert(s[k] == name[k - (pos + 1)] as u8);
                }
                lemma_digits_value_moves(s, pos + 1, end, as_bytes(name), -(pos + 1), 10);
            }
        },
    }
}

/// Whatever is read as a register by itself can be written.
pub proof fn lemma_register_writable(s: Seq<u8>, pos: int)
    requires
        0 <= pos <= s.len(),
    ensures
        spec_normal_register(s, pos) matches Ok((r, _)) ==> r is Normal && writable_operand(r),
{
    if let Ok((RegisterOperand::Normal(RegisterId::Named(name)), end)) = spec_normal_register(
        s,
        pos,
    ) {
        let class = if is_digit(s[pos + 1]) {
            ByteClass::Digit
        } else {
            ByteClass::Alphanumeric
        };
        lemma_run_end(s, pos + 1, class);
        lemma_run_end(s, pos + 2, class);
        assert forall|k: int| 0 <= k < name.len() implies (#[trigger] name[k] as u8) as char
            == name[k] && class.holds(name[k] as u8) by {
            assert(name[k] == s[pos + 1 + k] as char);
        }
        assert(name[0] == s[pos + 1] as char);
        if is_digit(s[pos + 1]) {
            assert forall|k: int| pos + 1 <= k < end implies #[trigger] s[k] == as_bytes(name)[k
                + (-(pos + 1))] by {
                assert(name[k - (pos + 1)] == s[k] as char);
            }
            lemma_digits_value_moves(s, pos + 1, end, as_bytes(name), -(pos + 1), 10);
        }
    }
}

/// A register by itself, written out and parsed again, is the same
/// register, and the whole text is taken: whatever input a register was
/// parsed from, its text reads back as that register.
pub proof fn lemma_register_round_trip(s: Seq<u8>, pos: int)
    requires
        0 <= pos <= s.len(),
        spec_normal_register(s, pos) is Ok,
    ensures
        ({
            let register = spec_normal_register(s, pos)->Ok_0.0;
            let text = as_bytes(register_text(register));
            spec_normal_register(text, 0) == Ok::<(RegisterOperand, int), int>(
                (register, text.len() as int),
            )
        }),
{
    lemma_register_writable(s, pos);
    let register = spec_normal_register(s, pos)->Ok_0.0;
    lemma_register_reads_back(register.identifier(), as_bytes(register_text(register)), 0);
}

/// A register operand that can be written, with or without an offset,
/// reads back from its text as itself, and the whole text is taken.
pub proof fn lemma_operand_reads_back(r: RegisterOperand)
    requires
        writable_operand(r),
    ensures
        spec_register(as_bytes(register_text(r)), 0) == Ok::<(RegisterOperand, int), int>(
            (r, register_text(r).len() as int),
        ),
{
    let s = as_bytes(register_text(r));
    match r {
        RegisterOperand::Normal(id) => {
            lemma_register_reads_back(id, s, 0);
        },
        RegisterOperand::Offset(offset, id) => {
            let head = expr_text(offset);
            let mid = seq!['(', '$'];
            let name = identifier_text(id);
            let tail = seq![')'];
            let a = head + mid;
            let b = a + name;
            assert(register_text(r) == b + tail);
            lemma_holds_parts(s, 0, b, tail);
            lemma_holds_parts(s, 0, a, name);
            lemma_holds_parts(s, 0, head, mid);
            let open = head.len() as int;
            let end = b.len() as int;
            assert(s[open] == mid[0] as u8);
            assert(s[open + 1] == mid[1] as u8);
            assert(s[end] == tail[0] as u8);
            lemma_text_starts(offset);
            assert(s[0] == head[0] as u8);
            assert(spec_normal_register(s, 0) is Err);
            lemma_written_reads_back(offset, s, 0);
            lemma_close_is_no_operator(s, open);
            lemma_unary_is_chain(s, 0, Level::Or);
            assert(spec_offset(s, 0) == (offset, open));
            assert(run_end(s, open, ByteClass::Blank) == open);
            assert(run_end(s, open + 1, ByteClass::Blank) == open + 1);
            assert(holds_at(s, open + 1, seq!['$'] + name)) by {
                assert forall|k: int| open + 1 <= k < open + 1 + (seq!['$'] + name).len() implies
                    #[trigger] s[k] == (seq!['$'] + name)[k - (open + 1)] as u8 by {
                    if k > open + 1 {
                        assert(s[k] == name[k - a.len()] as u8);
                    }
                }
            }
            lemma_register_reads_back(id, s, open + 1);
            assert(run_end(s, end, ByteClass::Blank) == end);
        },
    }
}

/// A register operand that was parsed, written out and parsed again is the
/// same operand: whatever input it was first read from, its text reads
/// back as it, and the whole text is taken.
pub proof fn lemma_operand_round_trip(s: Seq<u8>, pos: int)
    requires
        0 <= pos <= s.len(),
        spec_register(s, pos) is Ok,
    ensures
        ({
            let r = spec_register(s, pos)->Ok_0.0;
            spec_register(as_bytes(register_text(r)), 0) == Ok::<(RegisterOperand, int), int>(
                (r, register_text(r).len() as int),
            )
        }),
{
    let r = spec_register(s, pos)->Ok_0.0;
    lemma_register_writable(s, pos);
    if spec_normal_register(s, pos) is Err {
        lemma_chain_writable(s, pos, Level::Or);
        lemma_chain_within(s, pos, Level::Or);
        let from = spec_offset(s, pos).1;
        lemma_run_end(s, from, ByteClass::Blank);
        let open = run_end(s, from, ByteClass::Blank);
        lemma_run_end(s, open + 1, ByteClass::Blank);
        lemma_register_writable(s, run_end(s, open + 1, ByteClass::Blank));
    }
    lemma_operand_reads_back(r);
}

} // verus!
