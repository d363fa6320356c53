//! How numbers and expressions are written out as text.

use crate::constant::{BinaryOp, ConstExpr, MpConstValue, UnaryOp};
use crate::lex::{digit_value, digits_value, is_digit, lemma_digits_value_moves, push_char};
use vstd::prelude::*;
use vstd::string::StringExecFns;

verus! {

/// The character that writes the digit `d`, for `d` below ten.
pub open spec fn digit_char(d: int) -> char {
    ((48 + d) as u8) as char
}

/// The decimal digits of `n`, the most significant first, without leading
/// zeros.
pub open spec fn decimal(n: nat) -> Seq<char>
    decreases n,
{
    if n < 10 {
        seq![digit_char(n as int)]
    } else {
        decimal(n / 10).push(digit_char((n % 10) as int))
    }
}

/// The bytes that write a text of ASCII characters, one for one.
pub open spec fn as_bytes(text: Seq<char>) -> Seq<u8> {
    Seq::new(text.len(), |k: int| text[k] as u8)
}

/// A number written in decimal is made of digits only, at least one, and
/// read back as decimal digits it is the same number, wherever it stands.
pub proof fn lemma_decimal_reads_back(n: nat, before: Seq<u8>)
    ensures
        decimal(n).len() >= 1,
        forall|k: int| 0 <= k < decimal(n).len() ==> is_digit(#[trigger] as_bytes(decimal(n))[k]),
        digits_value(
            before + as_bytes(decimal(n)),
            before.len() as int,
            (before.len() + decimal(n).len()) as int,
            10,
        ) == n,
    decreases n,
{
    let whole = before + as_bytes(decimal(n));
    let from = before.len() as int;
    let to = (before.len() + decimal(n).len()) as int;
    if n < 10 {
        assert(decimal(n).len() == 1);
        assert(whole[to - 1] == (48 + n) as u8);
        assert(digits_value(whole, from, to - 1, 10) == 0);
    } else {
        lemma_decimal_reads_back(n / 10, before);
        let shorter = before + as_bytes(decimal(n / 10));
        assert(decimal(n).len() == decimal(n / 10).len() + 1);
        assert forall|k: int| 0 <= k < decimal(n).len() implies is_digit(
            #[trigger] as_bytes(decimal(n))[k],
        ) by {
            if k < decimal(n / 10).len() {
                assert(as_bytes(decimal(n))[k] == as_bytes(decimal(n / 10))[k]);
            }
        }
        assert forall|k: int| from <= k < to - 1 implies #[trigger] shorter[k] == whole[k + 0] by {
            assert(shorter[k] == as_bytes(decimal(n / 10))[k - from]);
            assert(whole[k] == as_bytes(decimal(n))[k - from]);
        }
        lemma_digits_value_moves(shorter, from, to - 1, whole, 0, 10);
        assert(whole[to - 1] == as_bytes(decimal(n))[decimal(n).len() - 1]);
        assert(whole[to - 1] == (48 + n % 10) as u8);
        assert(digits_value(whole, from, to, 10) == digits_value(whole, from, to - 1, 10) * 10
            + digit_value(whole[to - 1]));
    }
}

/// Appends the decimal digits of `n` to `text`.
pub fn push_decimal(text: &mut String, n: u64)
    ensures
        final(text)@ == old(text)@ + decimal(n as nat),
    decreases n,
{
    if n >= 10 {
        push_decimal(text, n / 10);
    }
    let digit: u8 = (48 + n % 10) as u8;
    push_char(text, digit as char);
    proof {
        if n >= 10 {
            assert(old(text)@ + decimal(n as nat) == (old(text)@ + decimal((n / 10) as nat)).push(
                digit_char((n % 10) as int),
            ));
        } else {
            assert(old(text)@ + decimal(n as nat) == old(text)@.push(digit_char(n as int)));
        }
    }
}

/// The sign that writes a binary operator.
pub open spec fn operator_text(op: BinaryOp) -> Seq<char> {
    match op {
        BinaryOp::Or => seq!['|'],
        BinaryOp::Xor => seq!['^'],
        BinaryOp::And => seq!['&'],
        BinaryOp::Shl => seq!['<', '<'],
        BinaryOp::Shr => seq!['>', '>'],
        BinaryOp::Sum => seq!['+'],
        BinaryOp::Sub => seq!['-'],
        BinaryOp::Mult => seq!['*'],
        BinaryOp::Div => seq!['/'],
        BinaryOp::Mod => seq!['%'],
    }
}

/// Appends the sign of a binary operator to `text`.
pub fn push_operator(text: &mut String, op: BinaryOp)
    ensures
        final(text)@ == old(text)@ + operator_text(op),
{
    match op {
        BinaryOp::Or => push_char(text, '|'),
        BinaryOp::Xor => push_char(text, '^'),
        BinaryOp::And => push_char(text, '&'),
        BinaryOp::Shl => {
            push_char(text, '<');
            push_char(text, '<');
        },
        BinaryOp::Shr => {
            push_char(text, '>');
            push_char(text, '>');
        },
        BinaryOp::Sum => push_char(text, '+'),
        BinaryOp::Sub => push_char(text, '-'),
        BinaryOp::Mult => push_char(text, '*'),
        BinaryOp::Div => push_char(text, '/'),
        BinaryOp::Mod => push_char(text, '%'),
    }
    assert(final(text)@ =~= old(text)@ + operator_text(op));
}

/// The sign that writes a prefix operator.
pub open spec fn prefix_char(op: UnaryOp) -> char {
    match op {
        UnaryOp::Minus => '-',
        UnaryOp::Neg => '~',
    }
}

/// An expression written out: a literal in decimal, a name as it is, a
/// prefix operator directly before its operand, and two operands with their
/// operator between them, one space on each side of it, in parentheses.
pub open spec fn expr_text(e: ConstExpr) -> Seq<char>
    decreases e,
{
    match e {
        ConstExpr::Value(v) => decimal(v as nat),
        ConstExpr::Const(name) => name,
        ConstExpr::Unary(op, operand) => seq![prefix_char(op)] + expr_text(*operand),
        ConstExpr::Binary(op, left, right) => seq!['('] + expr_text(*left) + seq![' ']
            + operator_text(op) + seq![' '] + expr_text(*right) + seq![')'],
    }
}

/// Number of nodes of an expression.
pub open spec fn size(e: ConstExpr) -> nat
    decreases e,
{
    match e {
        ConstExpr::Value(_) => 1,
        ConstExpr::Const(_) => 1,
        ConstExpr::Unary(_, operand) => 1 + size(*operand),
        ConstExpr::Binary(_, left, right) => 1 + size(*left) + size(*right),
    }
}

/// Appends an expression, written out, to `text`.
pub fn push_expr(text: &mut String, e: &MpConstValue)
    ensures
        final(text)@ == old(text)@ + expr_text(e@),
    decreases size(e@),
{
    match e {
        MpConstValue::Value(v) => {
            push_decimal(text, *v);
        },
        MpConstValue::Const(name) => {
            text.append(name.as_str());
        },
        _ => {
            if let Some((op, operand)) = e.as_unary() {
                push_char(
                    text,
                    match op {
                        UnaryOp::Minus => '-',
                        UnaryOp::Neg => '~',
                    },
                );
                push_expr(text, operand);
                assert(final(text)@ =~= old(text)@ + expr_text(e@));
            } else if let Some((op, left, right)) = e.as_binary() {
                push_char(text, '(');
                push_expr(text, left);
                push_char(text, ' ');
                push_operator(text, op);
                push_char(text, ' ');
                push_expr(text, right);
                push_char(text, ')');
                assert(final(text)@ =~= old(text)@ + expr_text(e@));
            }
        },
    }
}

impl MpConstValue {
    /// The expression written out, so that it reads back as itself.
    pub fn to_string(&self) -> (text: String)
        ensures
            text@ == expr_text(self@),
    {
        let mut text = String::new();
        push_expr(&mut text, self);
        text
    }
}

/// The texts joined into one, with `separator` between each two.
pub open spec fn joined(parts: Seq<String>, separator: Seq<char>) -> Seq<char>
    decreases parts.len(),
{
    if parts.len() == 0 {
        Seq::empty()
    } else if parts.len() == 1 {
        parts[0]@
    } else {
        joined(parts.drop_last(), separator) + separator + parts.last()@
    }
}

/// Joins the texts into one, with `separator` between each two.
pub fn join(parts: &Vec<String>, separator: &str) -> (text: String)
    ensures
        text@ == joined(parts@, separator@),
{
    let mut text = String::new();
    let mut k: usize = 0;
    while k < parts.len()
        invariant
            k <= parts@.len(),
            text@ == joined(parts@.take(k as int), separator@),
        decreases parts@.len() - k,
    {
        if k > 0 {
            text.append(separator);
        }
        text.append(parts[k].as_str());
        proof {
            assert(parts@.take(k + 1).drop_last() == parts@.take(k as int));
            assert(text@ =~= joined(parts@.take(k + 1), separator@));
        }
        k = k + 1;
    }
    proof {
        assert(parts@.take(k as int) == parts@);
    }
    text
}

} // verus!
