//! Constant expressions and constant definitions.
//!
//! A constant expression is parsed by precedence climbing. From the loosest
//! level to the tightest: `|`, `^`, `&`, the shifts, `+ -`, `* / %`, the
//! prefix operators `+ - ~`, and the atoms. Operators of one level associate
//! to the left. The grammar is given as spec functions on a byte string and a
//! position; each parser is proved to read exactly what they say.

use crate::lex::{
    advances, blank_end, comment_multispace0, digits_value, lemma_run_end, lemma_skip_blank_bounds,
    lemma_u32_advances, number_form, parse_char, parse_ident, parse_u32, run_end, spec_char,
    spec_ident, spec_u32, yields_view, ByteClass, Radix, Reading, ZERO,
};
use crate::span::{column_at, line_at, ParseError, Span};
use vstd::prelude::*;

verus! {

/// An operator that stands between two operands.
#[derive(Clone, Copy, Debug, PartialEq, Eq, Structural)]
pub enum BinaryOp {
    Or,
    Xor,
    And,
    Shl,
    Shr,
    Sum,
    Sub,
    Mult,
    Div,
    Mod,
}

/// An operator that stands before its operand and changes it.
#[derive(Clone, Copy, Debug, PartialEq, Eq, Structural)]
pub enum UnaryOp {
    /// Arithmetic negation, written `-`.
    Minus,
    /// Bitwise complement, written `~`.
    Neg,
}

/// The mathematical shape of a constant expression.
pub enum ConstExpr {
    Value(u64),
    Const(Seq<char>),
    Unary(UnaryOp, Box<ConstExpr>),
    Binary(BinaryOp, Box<ConstExpr>, Box<ConstExpr>),
}

/// A constant expression as parsed: a tree over literals and names.
#[derive(Debug, PartialEq)]
pub enum MpConstValue {
    Value(u64),
    Const(String),
    Minus(Box<MpConstValue>),
    Mult(Box<MpConstValue>, Box<MpConstValue>),
    Sum(Box<MpConstValue>, Box<MpConstValue>),
    Sub(Box<MpConstValue>, Box<MpConstValue>),
    Div(Box<MpConstValue>, Box<MpConstValue>),
    Mod(Box<MpConstValue>, Box<MpConstValue>),
    And(Box<MpConstValue>, Box<MpConstValue>),
    Or(Box<MpConstValue>, Box<MpConstValue>),
    Xor(Box<MpConstValue>, Box<MpConstValue>),
    Neg(Box<MpConstValue>),
    Shl(Box<MpConstValue>, Box<MpConstValue>),
    Shr(Box<MpConstValue>, Box<MpConstValue>),
}

/// The expression that applies `op` to two expressions.
pub open spec fn binary(op: BinaryOp, left: ConstExpr, right: ConstExpr) -> ConstExpr {
    ConstExpr::Binary(op, Box::new(left), Box::new(right))
}

/// The expression that applies `op` to one expression.
pub open spec fn unary(op: UnaryOp, operand: ConstExpr) -> ConstExpr {
    ConstExpr::Unary(op, Box::new(operand))
}

/// The shape of a parsed expression: the same tree, with each name as the
/// sequence of its characters.
pub open spec fn shape(e: MpConstValue) -> ConstExpr
    decreases e,
{
    match e {
        MpConstValue::Value(v) => ConstExpr::Value(v),
        MpConstValue::Const(name) => ConstExpr::Const(name@),
        MpConstValue::Minus(e) => unary(UnaryOp::Minus, shape(*e)),
        MpConstValue::Neg(e) => unary(UnaryOp::Neg, shape(*e)),
        MpConstValue::Mult(l, r) => binary(BinaryOp::Mult, shape(*l), shape(*r)),
        MpConstValue::Sum(l, r) => binary(BinaryOp::Sum, shape(*l), shape(*r)),
        MpConstValue::Sub(l, r) => binary(BinaryOp::Sub, shape(*l), shape(*r)),
        MpConstValue::Div(l, r) => binary(BinaryOp::Div, shape(*l), shape(*r)),
        MpConstValue::Mod(l, r) => binary(BinaryOp::Mod, shape(*l), shape(*r)),
        MpConstValue::And(l, r) => binary(BinaryOp::And, shape(*l), shape(*r)),
        MpConstValue::Or(l, r) => binary(BinaryOp::Or, shape(*l), shape(*r)),
        MpConstValue::Xor(l, r) => binary(BinaryOp::Xor, shape(*l), shape(*r)),
        MpConstValue::Shl(l, r) => binary(BinaryOp::Shl, shape(*l), shape(*r)),
        MpConstValue::Shr(l, r) => binary(BinaryOp::Shr, shape(*l), shape(*r)),
    }
}

impl View for MpConstValue {
    type V = ConstExpr;

    open spec fn view(&self) -> ConstExpr {
        shape(*self)
    }
}

impl Clone for MpConstValue {
    fn clone(&self) -> (copy: Self)
        ensures
            copy@ == self@,
        decreases self,
    {
        match self {
            MpConstValue::Value(v) => MpConstValue::Value(*v),
            MpConstValue::Const(name) => MpConstValue::Const(name.clone()),
            MpConstValue::Minus(e) => MpConstValue::Minus(Box::new((&**e).clone())),
            MpConstValue::Neg(e) => MpConstValue::Neg(Box::new((&**e).clone())),
            MpConstValue::Mult(l, r) => MpConstValue::Mult(
                Box::new((&**l).clone()),
                Box::new((&**r).clone()),
            ),
            MpConstValue::Sum(l, r) => MpConstValue::Sum(
                Box::new((&**l).clone()),
                Box::new((&**r).clone()),
            ),
            MpConstValue::Sub(l, r) => MpConstValue::Sub(
                Box::new((&**l).clone()),
                Box::new((&**r).clone()),
            ),
            MpConstValue::Div(l, r) => MpConstValue::Div(
                Box::new((&**l).clone()),
                Box::new((&**r).clone()),
            ),
            MpConstValue::Mod(l, r) => MpConstValue::Mod(
                Box::new((&**l).clone()),
                Box::new((&**r).clone()),
            ),
            MpConstValue::And(l, r) => MpConstValue::And(
                Box::new((&**l).clone()),
                Box::new((&**r).clone()),
            ),
            MpConstValue::Or(l, r) => MpConstValue::Or(
                Box::new((&**l).clone()),
                Box::new((&**r).clone()),
            ),
            MpConstValue::Xor(l, r) => MpConstValue::Xor(
                Box::new((&**l).clone()),
                Box::new((&**r).clone()),
            ),
            MpConstValue::Shl(l, r) => MpConstValue::Shl(
                Box::new((&**l).clone()),
                Box::new((&**r).clone()),
            ),
            MpConstValue::Shr(l, r) => MpConstValue::Shr(
                Box::new((&**l).clone()),
                Box::new((&**r).clone()),
            ),
        }
    }
}

impl MpConstValue {
    /// The operator and the two operands of a tree that joins two trees.
    pub fn as_binary(&self) -> (r: Option<(BinaryOp, &MpConstValue, &MpConstValue)>)
        ensures
            match self@ {
                ConstExpr::Binary(op, left, right) => r matches Some((o, l, r)) && o == op && l@
                    == *left && r@ == *right,
                _ => r is None,
            },
    {
        match self {
            MpConstValue::Mult(l, r) => Some((BinaryOp::Mult, &**l, &**r)),
            MpConstValue::Sum(l, r) => Some((BinaryOp::Sum, &**l, &**r)),
            MpConstValue::Sub(l, r) => Some((BinaryOp::Sub, &**l, &**r)),
            MpConstValue::Div(l, r) => Some((BinaryOp::Div, &**l, &**r)),
            MpConstValue::Mod(l, r) => Some((BinaryOp::Mod, &**l, &**r)),
            MpConstValue::And(l, r) => Some((BinaryOp::And, &**l, &**r)),
            MpConstValue::Or(l, r) => Some((BinaryOp::Or, &**l, &**r)),
            MpConstValue::Xor(l, r) => Some((BinaryOp::Xor, &**l, &**r)),
            MpConstValue::Shl(l, r) => Some((BinaryOp::Shl, &**l, &**r)),
            MpConstValue::Shr(l, r) => Some((BinaryOp::Shr, &**l, &**r)),
            _ => None,
        }
    }

    /// The operator and the operand of a tree that a prefix operator heads.
    pub fn as_unary(&self) -> (r: Option<(UnaryOp, &MpConstValue)>)
        ensures
            match self@ {
                ConstExpr::Unary(op, operand) => r matches Some((o, e)) && o == op && e@
                    == *operand,
                _ => r is None,
            },
    {
        match self {
            MpConstValue::Minus(e) => Some((UnaryOp::Minus, &**e)),
            MpConstValue::Neg(e) => Some((UnaryOp::Neg, &**e)),
            _ => None,
        }
    }

    /// The tree that joins two trees by a binary operator.
    pub fn binary(op: BinaryOp, left: MpConstValue, right: MpConstValue) -> (e: MpConstValue)
        ensures
            e@ == binary(op, left@, right@),
    {
        let l = Box::new(left);
        let r = Box::new(right);
        match op {
            BinaryOp::Or => MpConstValue::Or(l, r),
            BinaryOp::Xor => MpConstValue::Xor(l, r),
            BinaryOp::And => MpConstValue::And(l, r),
            BinaryOp::Shl => MpConstValue::Shl(l, r),
            BinaryOp::Shr => MpConstValue::Shr(l, r),
            BinaryOp::Sum => MpConstValue::Sum(l, r),
            BinaryOp::Sub => MpConstValue::Sub(l, r),
            BinaryOp::Mult => MpConstValue::Mult(l, r),
            BinaryOp::Div => MpConstValue::Div(l, r),
            BinaryOp::Mod => MpConstValue::Mod(l, r),
        }
    }
}

/// A level of binary operators, from the loosest to the tightest.
#[derive(Clone, Copy, Debug, PartialEq, Eq, Structural)]
pub enum Level {
    Or,
    Xor,
    And,
    Shift,
    AddSub,
    MulDivMod,
}

impl Level {
    /// How tightly the level binds: 0 for the loosest.
    pub open spec fn rank(self) -> int {
        match self {
            Level::Or => 0,
            Level::Xor => 1,
            Level::And => 2,
            Level::Shift => 3,
            Level::AddSub => 4,
            Level::MulDivMod => 5,
        }
    }

    /// The level that binds next tighter, if there is one.
    pub open spec fn tighter(self) -> Option<Level> {
        match self {
            Level::Or => Some(Level::Xor),
            Level::Xor => Some(Level::And),
            Level::And => Some(Level::Shift),
            Level::Shift => Some(Level::AddSub),
            Level::AddSub => Some(Level::MulDivMod),
            Level::MulDivMod => None,
        }
    }
}

/// The operator of `level` that is written at `pos`, with the number of
/// bytes it takes.
pub open spec fn operator_at(s: Seq<u8>, pos: int, level: Level) -> Option<(BinaryOp, int)> {
    if pos < 0 || pos >= s.len() {
        None
    } else {
        let b = s[pos];
        match level {
            Level::Or => if b == 124 {
                Some((BinaryOp::Or, 1int))
            } else {
                None
            },
            Level::Xor => if b == 94 {
                Some((BinaryOp::Xor, 1int))
            } else {
                None
            },
            Level::And => if b == 38 {
                Some((BinaryOp::And, 1int))
            } else {
                None
            },
            Level::Shift => if pos + 1 < s.len() && b == 60 && s[pos + 1] == 60 {
                Some((BinaryOp::Shl, 2int))
            } else if pos + 1 < s.len() && b == 62 && s[pos + 1] == 62 {
                Some((BinaryOp::Shr, 2int))
            } else {
                None
            },
            Level::AddSub => if b == PLUS {
                Some((BinaryOp::Sum, 1int))
            } else if b == MINUS {
                Some((BinaryOp::Sub, 1int))
            } else {
                None
            },
            Level::MulDivMod => if b == 42 {
                Some((BinaryOp::Mult, 1int))
            } else if b == 47 {
                Some((BinaryOp::Div, 1int))
            } else if b == 37 {
                Some((BinaryOp::Mod, 1int))
            } else {
                None
            },
        }
    }
}

/// The byte `+`.
pub const PLUS: u8 = 43;

/// The byte `-`.
pub const MINUS: u8 = 45;

/// The byte `~`.
pub const TILDE: u8 = 126;

/// The byte `(`.
pub const OPEN: u8 = 40;

/// The byte `)`.
pub const CLOSE: u8 = 41;

/// The byte `=`.
pub const EQUALS: u8 = 61;

/// The tree of a first operand followed by operators of one level with
/// their right operands: each operator takes all that stands to its left as
/// its left operand.
pub open spec fn fold_chain(first: ConstExpr, items: Seq<(BinaryOp, ConstExpr)>) -> ConstExpr
    decreases items.len(),
{
    if items.len() == 0 {
        first
    } else {
        binary(items.last().0, fold_chain(first, items.drop_last()), items.last().1)
    }
}

/// An expression of `level` at `pos`: an operand, then operators of the
/// level with their operands as far as they go, joined to the left.
///
/// The tests that a position lies behind `pos` and inside the input never
/// fail; they are what shows that the grammar ends.
pub open spec fn spec_chain(s: Seq<u8>, pos: int, level: Level) -> Reading<ConstExpr>
    decreases s.len() - pos, 4 * (6 - level.rank()) + 2,
{
    match spec_operand(s, pos, level) {
        Ok((first, next)) => {
            if pos < next <= s.len() {
                let (items, end) = spec_rest(s, next, level);
                Ok((fold_chain(first, items), end))
            } else {
                Err(pos)
            }
        },
        Err(at) => Err(at),
    }
}

/// An operand of `level` at `pos`: an expression of the next tighter level,
/// or, for the tightest, one with prefix operators.
pub open spec fn spec_operand(s: Seq<u8>, pos: int, level: Level) -> Reading<ConstExpr>
    decreases s.len() - pos, 4 * (6 - level.rank()) + 1,
{
    match level.tighter() {
        Some(next) => spec_chain(s, pos, next),
        None => spec_unary(s, pos),
    }
}

/// The operators of `level` with their right operands that follow `pos`,
/// and the position behind the last of them. Blank space and comments may
/// stand on either side of an operator. An operator that no operand follows
/// is not taken, nor the blank space before it.
pub open spec fn spec_rest(s: Seq<u8>, pos: int, level: Level) -> (Seq<(BinaryOp, ConstExpr)>, int)
    decreases s.len() - pos, 4 * (6 - level.rank()) + 2,
{
    match operator_at(s, blank_end(s, pos), level) {
        Some((op, width)) => {
            let at = blank_end(s, blank_end(s, pos) + width);
            if pos < at <= s.len() {
                match spec_operand(s, at, level) {
                    Ok((right, next)) => {
                        if at < next <= s.len() {
                            let (more, end) = spec_rest(s, next, level);
                            (seq![(op, right)] + more, end)
                        } else {
                            (Seq::empty(), pos)
                        }
                    },
                    Err(_) => (Seq::empty(), pos),
                }
            } else {
                (Seq::empty(), pos)
            }
        },
        None => (Seq::empty(), pos),
    }
}

/// The operand of the prefix operator `mark` at `pos`: the operator, blank
/// space or comments, and an expression with prefix operators.
pub open spec fn spec_prefixed(s: Seq<u8>, pos: int, mark: u8) -> Reading<ConstExpr>
    decreases s.len() - pos, 2int,
{
    if 0 <= pos < s.len() && s[pos] == mark {
        let at = blank_end(s, pos + 1);
        if pos < at <= s.len() {
            spec_unary(s, at)
        } else {
            Err(pos)
        }
    } else {
        Err(pos)
    }
}

/// An expression with prefix operators at `pos`: `+`, which changes
/// nothing, `-` or `~` before another such expression, or an atom.
pub open spec fn spec_unary(s: Seq<u8>, pos: int) -> Reading<ConstExpr>
    decreases s.len() - pos, 3int,
{
    match spec_prefixed(s, pos, PLUS) {
        Ok(found) => Ok(found),
        Err(_) => match spec_prefixed(s, pos, MINUS) {
            Ok((e, next)) => Ok((unary(UnaryOp::Minus, e), next)),
            Err(_) => match spec_prefixed(s, pos, TILDE) {
                Ok((e, next)) => Ok((unary(UnaryOp::Neg, e), next)),
                Err(_) => spec_atom(s, pos),
            },
        },
    }
}

/// An atom at `pos`: an integer literal, a character literal, a name, or an
/// expression of the loosest level between `(` and `)`.
pub open spec fn spec_atom(s: Seq<u8>, pos: int) -> Reading<ConstExpr>
    decreases s.len() - pos, 1int,
{
    match spec_u32(s, pos) {
        Ok((v, next)) => Ok((ConstExpr::Value(v as u64), next)),
        Err(_) => match spec_char(s, pos) {
            Ok((b, next)) => Ok((ConstExpr::Value(b as u64), next)),
            Err(_) => match spec_ident(s, pos) {
                Ok((name, next)) => Ok((ConstExpr::Const(name), next)),
                Err(_) => {
                    if 0 <= pos < s.len() && s[pos] == OPEN {
                        let at = blank_end(s, pos + 1);
                        if pos < at <= s.len() {
                            match spec_chain(s, at, Level::Or) {
                                Ok((e, next)) => {
                                    let close = blank_end(s, next);
                                    if 0 <= close < s.len() && s[close] == CLOSE {
                                        Ok((e, close + 1))
                                    } else {
                                        Err(close)
                                    }
                                },
                                Err(at) => Err(at),
                            }
                        } else {
                            Err(pos)
                        }
                    } else {
                        Err(pos)
                    }
                },
            },
        },
    }
}

/// A constant expression at `pos`: an expression of the loosest level.
pub open spec fn spec_constant_value(s: Seq<u8>, pos: int) -> Reading<ConstExpr> {
    spec_chain(s, pos, Level::Or)
}

fn find_operator<'a>(i: Span<'a>, level: Level) -> (r: Option<(BinaryOp, usize)>)
    ensures
        match operator_at(i.bytes(), i.pos() as int, level) {
            Some((op, width)) => r == Some((op, width as usize)) && 1 <= width <= 2 && i.pos()
                + width <= i.bytes().len(),
            None => r is None,
        },
{
    let b = match i.peek() {
        Some(b) => b,
        None => {
            return None;
        },
    };
    let next = i.peek_at(1);
    match level {
        Level::Or => if b == 124 {
            Some((BinaryOp::Or, 1))
        } else {
            None
        },
        Level::Xor => if b == 94 {
            Some((BinaryOp::Xor, 1))
        } else {
            None
        },
        Level::And => if b == 38 {
            Some((BinaryOp::And, 1))
        } else {
            None
        },
        Level::Shift => if b == 60 && next == Some(60u8) {
            Some((BinaryOp::Shl, 2))
        } else if b == 62 && next == Some(62u8) {
            Some((BinaryOp::Shr, 2))
        } else {
            None
        },
        Level::AddSub => if b == PLUS {
            Some((BinaryOp::Sum, 1))
        } else if b == MINUS {
            Some((BinaryOp::Sub, 1))
        } else {
            None
        },
        Level::MulDivMod => if b == 42 {
            Some((BinaryOp::Mult, 1))
        } else if b == 47 {
            Some((BinaryOp::Div, 1))
        } else if b == 37 {
            Some((BinaryOp::Mod, 1))
        } else {
            None
        },
    }
}

/// Parses an operand of `level`.
fn parse_operand<'a>(i: Span<'a>, level: Level) -> (r: Result<(Span<'a>, MpConstValue), ParseError>)
    ensures
        yields_view(r, i, spec_operand(i.bytes(), i.pos() as int, level)),
        advances(r, i),
    decreases i.bytes().len() - i.pos(), 4 * (6 - level.rank()) + 1,
{
    match level {
        Level::Or => parse_xor_value(i),
        Level::Xor => parse_and_value(i),
        Level::And => parse_shift_value(i),
        Level::Shift => parse_add_sub_value(i),
        Level::AddSub => parse_mul_div_mod_value(i),
        Level::MulDivMod => parse_unary_op_value(i),
    }
}

/// Parses an expression of `level`: an operand, then every operator of the
/// level that an operand follows, joined to the left as they come.
fn parse_chain<'a>(i: Span<'a>, level: Level) -> (r: Result<(Span<'a>, MpConstValue), ParseError>)
    ensures
        yields_view(r, i, spec_chain(i.bytes(), i.pos() as int, level)),
        advances(r, i),
    decreases i.bytes().len() - i.pos(), 4 * (6 - level.rank()) + 2,
{
    let (start, first) = match parse_operand(i, level) {
        Ok(found) => found,
        Err(e) => {
            return Err(e);
        },
    };
    let ghost s = i.bytes();
    let ghost head = first@;
    let ghost mut done: Seq<(BinaryOp, ConstExpr)> = Seq::empty();
    let mut cur = start;
    let mut acc = first;
    loop
        invariant
            cur.bytes() == s,
            i.bytes() == s,
            i.pos() < start.pos() <= cur.pos() <= s.len(),
            acc@ == fold_chain(head, done),
            spec_rest(s, start.pos() as int, level).0 == done + spec_rest(
                s,
                cur.pos() as int,
                level,
            ).0,
            spec_rest(s, start.pos() as int, level).1 == spec_rest(s, cur.pos() as int, level).1,
        ensures
            cur.bytes() == s,
            i.pos() < cur.pos() <= s.len(),
            acc@ == fold_chain(head, done),
            spec_rest(s, start.pos() as int, level) == (done, cur.pos() as int),
        decreases s.len() - cur.pos(),
    {
        let blank = comment_multispace0(cur);
        let (op, width) = match find_operator(blank, level) {
            Some(found) => found,
            None => {
                assert(done + Seq::<(BinaryOp, ConstExpr)>::empty() == done);
                break ;
            },
        };
        let at = comment_multispace0(blank.advance(width));
        match parse_operand(at, level) {
            Ok((next, right)) => {
                proof {
                    let more = spec_rest(s, next.pos() as int, level).0;
                    let item = (op, right@);
                    assert(done + (seq![item] + more) == done.push(item) + more);
                    assert(done.push(item).drop_last() == done);
                    done = done.push(item);
                }
                acc = MpConstValue::binary(op, acc, right);
                cur = next;
            },
            Err(_) => {
                assert(done + Seq::<(BinaryOp, ConstExpr)>::empty() == done);
                break ;
            },
        }
    }
    Ok((cur, acc))
}

/// Parses a constant expression.
pub fn parse_constant_value<'a>(i: Span<'a>) -> (r: Result<(Span<'a>, MpConstValue), ParseError>)
    ensures
        yields_view(r, i, spec_constant_value(i.bytes(), i.pos() as int)),
        advances(r, i),
    decreases i.bytes().len() - i.pos(), 28int,
{
    parse_or_value(i)
}

/// Parses operands joined by `|`.
pub fn parse_or_value<'a>(i: Span<'a>) -> (r: Result<(Span<'a>, MpConstValue), ParseError>)
    ensures
        yields_view(r, i, spec_chain(i.bytes(), i.pos() as int, Level::Or)),
        advances(r, i),
    decreases i.bytes().len() - i.pos(), 27int,
{
    parse_chain(i, Level::Or)
}

/// Parses operands joined by `^`.
pub fn parse_xor_value<'a>(i: Span<'a>) -> (r: Result<(Span<'a>, MpConstValue), ParseError>)
    ensures
        yields_view(r, i, spec_chain(i.bytes(), i.pos() as int, Level::Xor)),
        advances(r, i),
    decreases i.bytes().len() - i.pos(), 23int,
{
    parse_chain(i, Level::Xor)
}

/// Parses operands joined by `&`.
pub fn parse_and_value<'a>(i: Span<'a>) -> (r: Result<(Span<'a>, MpConstValue), ParseError>)
    ensures
        yields_view(r, i, spec_chain(i.bytes(), i.pos() as int, Level::And)),
        advances(r, i),
    decreases i.bytes().len() - i.pos(), 19int,
{
    parse_chain(i, Level::And)
}

/// Parses operands joined by `<<` and `>>`.
pub fn parse_shift_value<'a>(i: Span<'a>) -> (r: Result<(Span<'a>, MpConstValue), ParseError>)
    ensures
        yields_view(r, i, spec_chain(i.bytes(), i.pos() as int, Level::Shift)),
        advances(r, i),
    decreases i.bytes().len() - i.pos(), 15int,
{
    parse_chain(i, Level::Shift)
}

/// Parses operands joined by `+` and `-`.
pub fn parse_add_sub_value<'a>(i: Span<'a>) -> (r: Result<(Span<'a>, MpConstValue), ParseError>)
    ensures
        yields_view(r, i, spec_chain(i.bytes(), i.pos() as int, Level::AddSub)),
        advances(r, i),
    decreases i.bytes().len() - i.pos(), 11int,
{
    parse_chain(i, Level::AddSub)
}

/// Parses operands joined by `*`, `/` and `%`.
pub fn parse_mul_div_mod_value<'a>(i: Span<'a>) -> (r: Result<
    (Span<'a>, MpConstValue),
    ParseError,
>)
    ensures
        yields_view(r, i, spec_chain(i.bytes(), i.pos() as int, Level::MulDivMod)),
        advances(r, i),
    decreases i.bytes().len() - i.pos(), 7int,
{
    parse_chain(i, Level::MulDivMod)
}

/// Parses the prefix operator `mark` and the expression behind it.
fn parse_prefixed<'a>(i: Span<'a>, mark: u8) -> (r: Result<(Span<'a>, MpConstValue), ParseError>)
    ensures
        yields_view(r, i, spec_prefixed(i.bytes(), i.pos() as int, mark)),
        advances(r, i),
    decreases i.bytes().len() - i.pos(), 2int,
{
    match i.peek() {
        Some(b) => {
            if b == mark {
                parse_unary_op_value(comment_multispace0(i.advance(1)))
            } else {
                Err(i.error())
            }
        },
        None => Err(i.error()),
    }
}

/// Parses an atom, or a prefix operator and what it applies to.
pub fn parse_unary_op_value<'a>(i: Span<'a>) -> (r: Result<(Span<'a>, MpConstValue), ParseError>)
    ensures
        yields_view(r, i, spec_unary(i.bytes(), i.pos() as int)),
        advances(r, i),
    decreases i.bytes().len() - i.pos(), 3int,
{
    match parse_prefixed(i, PLUS) {
        Ok(found) => Ok(found),
        Err(_) => match parse_prefixed(i, MINUS) {
            Ok((rest, e)) => Ok((rest, MpConstValue::Minus(Box::new(e)))),
            Err(_) => match parse_prefixed(i, TILDE) {
                Ok((rest, e)) => Ok((rest, MpConstValue::Neg(Box::new(e)))),
                Err(_) => parse_value(i),
            },
        },
    }
}

/// Parses `+` and the expression behind it, which it leaves as it is.
pub fn parse_plus_value<'a>(i: Span<'a>) -> (r: Result<(Span<'a>, MpConstValue), ParseError>)
    ensures
        yields_view(r, i, spec_prefixed(i.bytes(), i.pos() as int, PLUS)),
        advances(r, i),
{
    parse_prefixed(i, PLUS)
}

/// The negation of the expression that `-` stands before.
pub open spec fn spec_minus(s: Seq<u8>, pos: int) -> Reading<ConstExpr> {
    match spec_prefixed(s, pos, MINUS) {
        Ok((e, next)) => Ok((unary(UnaryOp::Minus, e), next)),
        Err(at) => Err(at),
    }
}

/// The complement of the expression that `~` stands before.
pub open spec fn spec_neg(s: Seq<u8>, pos: int) -> Reading<ConstExpr> {
    match spec_prefixed(s, pos, TILDE) {
        Ok((e, next)) => Ok((unary(UnaryOp::Neg, e), next)),
        Err(at) => Err(at),
    }
}

/// Parses `-` and the expression behind it, and negates it.
pub fn parse_minus_value<'a>(i: Span<'a>) -> (r: Result<(Span<'a>, MpConstValue), ParseError>)
    ensures
        yields_view(r, i, spec_minus(i.bytes(), i.pos() as int)),
        advances(r, i),
{
    match parse_prefixed(i, MINUS) {
        Ok((rest, e)) => Ok((rest, MpConstValue::Minus(Box::new(e)))),
        Err(e) => Err(e),
    }
}

/// Parses `~` and the expression behind it, and complements it.
pub fn parse_neg_value<'a>(i: Span<'a>) -> (r: Result<(Span<'a>, MpConstValue), ParseError>)
    ensures
        yields_view(r, i, spec_neg(i.bytes(), i.pos() as int)),
        advances(r, i),
{
    match parse_prefixed(i, TILDE) {
        Ok((rest, e)) => Ok((rest, MpConstValue::Neg(Box::new(e)))),
        Err(e) => Err(e),
    }
}

/// Parses an atom: a literal, a name, or an expression in parentheses.
pub fn parse_value<'a>(i: Span<'a>) -> (r: Result<(Span<'a>, MpConstValue), ParseError>)
    ensures
        yields_view(r, i, spec_atom(i.bytes(), i.pos() as int)),
        advances(r, i),
    decreases i.bytes().len() - i.pos(), 1int,
{
    if let Ok((rest, v)) = parse_u32(i) {
        return Ok((rest, MpConstValue::Value(v as u64)));
    }
    if let Ok((rest, b)) = parse_char(i) {
        return Ok((rest, MpConstValue::Value(b as u64)));
    }
    if let Ok((rest, name)) = parse_ident(i) {
        return Ok((rest, MpConstValue::Const(name)));
    }
    match i.peek() {
        Some(b) => {
            if b != OPEN {
                return Err(i.error());
            }
        },
        None => {
            return Err(i.error());
        },
    }
    let (inner, e) = match parse_constant_value(comment_multispace0(i.advance(1))) {
        Ok(found) => found,
        Err(e) => {
            return Err(e);
        },
    };
    let close = comment_multispace0(inner);
    match close.peek() {
        Some(b) => {
            if b == CLOSE {
                Ok((close.advance(1), e))
            } else {
                Err(close.error())
            }
        },
        None => Err(close.error()),
    }
}

/// A reading at `pos` stays inside the input: what is read ends behind
/// `pos`, and a failure lies at `pos` or behind it.
pub open spec fn within(r: Reading<ConstExpr>, s: Seq<u8>, pos: int) -> bool {
    match r {
        Ok((_, next)) => pos < next <= s.len(),
        Err(at) => pos <= at <= s.len(),
    }
}

/// Every expression of a level that can be read takes at least one byte and
/// stays inside the input, so the tests on positions in the grammar never
/// fail.
pub proof fn lemma_chain_within(s: Seq<u8>, pos: int, level: Level)
    requires
        0 <= pos <= s.len(),
    ensures
        within(spec_chain(s, pos, level), s, pos),
    decreases s.len() - pos, 4 * (6 - level.rank()) + 2,
{
    lemma_operand_within(s, pos, level);
    if let Ok((_, next)) = spec_operand(s, pos, level) {
        lemma_rest_within(s, next, level);
    }
}

/// As [`lemma_chain_within`], for an operand.
pub proof fn lemma_operand_within(s: Seq<u8>, pos: int, level: Level)
    requires
        0 <= pos <= s.len(),
    ensures
        within(spec_operand(s, pos, level), s, pos),
    decreases s.len() - pos, 4 * (6 - level.rank()) + 1,
{
    match level.tighter() {
        Some(next) => lemma_chain_within(s, pos, next),
        None => lemma_unary_within(s, pos),
    }
}

/// The operators and operands that follow a position end at that position
/// or behind it, inside the input.
pub proof fn lemma_rest_within(s: Seq<u8>, pos: int, level: Level)
    requires
        0 <= pos <= s.len(),
    ensures
        pos <= spec_rest(s, pos, level).1 <= s.len(),
    decreases s.len() - pos, 4 * (6 - level.rank()) + 2,
{
    lemma_skip_blank_bounds(s, pos, false);
    if let Some((_, width)) = operator_at(s, blank_end(s, pos), level) {
        let at = blank_end(s, blank_end(s, pos) + width);
        lemma_skip_blank_bounds(s, blank_end(s, pos) + width, false);
        lemma_operand_within(s, at, level);
        if let Ok((_, next)) = spec_operand(s, at, level) {
            lemma_rest_within(s, next, level);
        }
    }
}

/// As [`lemma_chain_within`], for what stands behind a prefix operator.
pub proof fn lemma_prefixed_within(s: Seq<u8>, pos: int, mark: u8)
    requires
        0 <= pos <= s.len(),
    ensures
        within(spec_prefixed(s, pos, mark), s, pos),
    decreases s.len() - pos, 2int,
{
    if pos < s.len() && s[pos] == mark {
        lemma_skip_blank_bounds(s, pos + 1, false);
        lemma_unary_within(s, blank_end(s, pos + 1));
    }
}

/// As [`lemma_chain_within`], for an expression with prefix operators.
pub proof fn lemma_unary_within(s: Seq<u8>, pos: int)
    requires
        0 <= pos <= s.len(),
    ensures
        within(spec_unary(s, pos), s, pos),
    decreases s.len() - pos, 3int,
{
    lemma_prefixed_within(s, pos, PLUS);
    lemma_prefixed_within(s, pos, MINUS);
    lemma_prefixed_within(s, pos, TILDE);
    lemma_atom_within(s, pos);
}

/// As [`lemma_chain_within`], for an atom.
pub proof fn lemma_atom_within(s: Seq<u8>, pos: int)
    requires
        0 <= pos <= s.len(),
    ensures
        within(spec_atom(s, pos), s, pos),
    decreases s.len() - pos, 1int,
{
    lemma_u32_advances(s, pos);
    if pos < s.len() {
        lemma_run_end(s, pos + 1, ByteClass::IdentPart);
    }
    if pos < s.len() && s[pos] == OPEN {
        lemma_skip_blank_bounds(s, pos + 1, false);
        let at = blank_end(s, pos + 1);
        lemma_chain_within(s, at, Level::Or);
        if let Ok((_, next)) = spec_chain(s, at, Level::Or) {
            lemma_skip_blank_bounds(s, next, false);
        }
    }
}

/// An operand that no operator of its level follows is the whole
/// expression of that level.
pub proof fn lemma_operand_alone(s: Seq<u8>, pos: int, level: Level)
    requires
        spec_operand(s, pos, level) matches Ok((_, next)) && pos < next <= s.len() && operator_at(
            s,
            blank_end(s, next),
            level,
        ) is None,
    ensures
        spec_chain(s, pos, level) == spec_operand(s, pos, level),
{
    let first = spec_operand(s, pos, level)->Ok_0.0;
    let next = spec_operand(s, pos, level)->Ok_0.1;
    assert(spec_rest(s, next, level) == (Seq::<(BinaryOp, ConstExpr)>::empty(), next));
    assert(fold_chain(first, Seq::empty()) == first);
}

/// A `0` that stands directly before `(` is a constant expression by
/// itself, worth zero.
pub proof fn lemma_lone_zero(s: Seq<u8>, pos: int)
    requires
        0 <= pos,
        pos + 1 < s.len(),
        s[pos] == ZERO,
        s[pos + 1] == OPEN,
    ensures
        spec_constant_value(s, pos) == Ok::<(ConstExpr, int), int>((ConstExpr::Value(0), pos + 1)),
{
    let found = Ok::<(ConstExpr, int), int>((ConstExpr::Value(0), pos + 1));
    assert(number_form(s, pos) == Some((Radix::Decimal, pos)));
    assert(run_end(s, pos, ByteClass::Digit) == pos + 1) by {
        reveal_with_fuel(run_end, 3);
    }
    assert(digits_value(s, pos, pos + 1, 10) == 0) by {
        reveal_with_fuel(digits_value, 3);
    }
    assert(spec_u32(s, pos) == Ok::<(u32, int), int>((0u32, pos + 1)));
    assert(spec_atom(s, pos) == found);
    assert(spec_unary(s, pos) == found);
    assert(blank_end(s, pos + 1) == pos + 1);
    assert(spec_operand(s, pos, Level::MulDivMod) == found);
    lemma_operand_alone(s, pos, Level::MulDivMod);
    assert(spec_operand(s, pos, Level::AddSub) == found);
    lemma_operand_alone(s, pos, Level::AddSub);
    assert(spec_operand(s, pos, Level::Shift) == found);
    lemma_operand_alone(s, pos, Level::Shift);
    assert(spec_operand(s, pos, Level::And) == found);
    lemma_operand_alone(s, pos, Level::And);
    assert(spec_operand(s, pos, Level::Xor) == found);
    lemma_operand_alone(s, pos, Level::Xor);
    assert(spec_operand(s, pos, Level::Or) == found);
    lemma_operand_alone(s, pos, Level::Or);
}

/// What a constant definition says: the name it binds, the expression
/// bound to it, and where in the source it starts and ends.
pub struct ConstDefinition {
    pub label: Seq<char>,
    pub value: ConstExpr,
    pub line: u32,
    pub col: u32,
    pub line_end: u32,
    pub col_end: u32,
}

/// A constant definition as parsed.
#[derive(Debug, Clone, PartialEq)]
pub struct MpConst {
    label: String,
    value: MpConstValue,
    line: u32,
    col: u32,
    line_end: u32,
    col_end: u32,
}

impl View for MpConst {
    type V = ConstDefinition;

    closed spec fn view(&self) -> ConstDefinition {
        ConstDefinition {
            label: self.label@,
            value: self.value@,
            line: self.line,
            col: self.col,
            line_end: self.line_end,
            col_end: self.col_end,
        }
    }
}

impl MpConst {
    /// The name that the definition binds.
    pub fn label(&self) -> (r: &str)
        ensures
            r@ == self@.label,
    {
        self.label.as_str()
    }

    /// The expression bound to the name.
    pub fn value(&self) -> (r: &MpConstValue)
        ensures
            r@ == self@.value,
    {
        &self.value
    }

    /// Line of the definition's first byte, counted from 1.
    pub fn line(&self) -> (r: u32)
        ensures
            r == self@.line,
    {
        self.line
    }

    /// Column of the definition's first byte, counted from 1.
    pub fn col(&self) -> (r: u32)
        ensures
            r == self@.col,
    {
        self.col
    }

    /// Line of the position behind the definition.
    pub fn line_end(&self) -> (r: u32)
        ensures
            r == self@.line_end,
    {
        self.line_end
    }

    /// Column of the position behind the definition.
    pub fn col_end(&self) -> (r: u32)
        ensures
            r == self@.col_end,
    {
        self.col_end
    }
}

/// A constant definition at `pos`: a name, `=`, and a constant expression,
/// with blank space or comments allowed around the `=`. It records the line
/// and column of `pos` and of the position behind the expression.
pub open spec fn spec_constant(s: Seq<u8>, pos: int) -> Reading<ConstDefinition> {
    match spec_ident(s, pos) {
        Ok((label, after)) => {
            let eq = blank_end(s, after);
            if 0 <= eq < s.len() && s[eq] == EQUALS {
                match spec_constant_value(s, blank_end(s, eq + 1)) {
                    Ok((value, end)) => Ok(
                        (
                            ConstDefinition {
                                label,
                                value,
                                line: line_at(s, pos) as u32,
                                col: column_at(s, pos) as u32,
                                line_end: line_at(s, end) as u32,
                                col_end: column_at(s, end) as u32,
                            },
                            end,
                        ),
                    ),
                    Err(at) => Err(at),
                }
            } else {
                Err(eq)
            }
        },
        Err(at) => Err(at),
    }
}

/// Parses a constant definition, `name = expression`.
pub fn parse_constant<'a>(i: Span<'a>) -> (r: Result<(Span<'a>, MpConst), ParseError>)
    ensures
        yields_view(r, i, spec_constant(i.bytes(), i.pos() as int)),
        advances(r, i),
{
    let (after, label) = match parse_ident(i) {
        Ok(found) => found,
        Err(e) => {
            return Err(e);
        },
    };
    let eq = comment_multispace0(after);
    match eq.peek() {
        Some(b) => {
            if b != EQUALS {
                return Err(eq.error());
            }
        },
        None => {
            return Err(eq.error());
        },
    }
    let (end, value) = match parse_constant_value(comment_multispace0(eq.advance(1))) {
        Ok(found) => found,
        Err(e) => {
            return Err(e);
        },
    };
    let col: usize = i.get_column();
    let col_end: usize = end.get_column();
    Ok(
        (
            end,
            MpConst {
                label,
                value,
                line: i.location_line(),
                col: col as u32,
                line_end: end.location_line(),
                col_end: col_end as u32,
            },
        ),
    )
}

} // verus!
