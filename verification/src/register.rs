//! Register operands: a register by itself, `$t0` or `$8`, or a register
//! with an offset before it, `4($sp)`, as memory operands are written.

use crate::constant::{
    lemma_lone_zero, parse_constant_value, spec_constant_value, ConstExpr, MpConstValue, CLOSE,
    OPEN,
};
use crate::lex::{
    advances, as_chars, bounded_value, is_alpha, is_digit, lemma_run_end, push_char, read_digits,
    run_end, take_while, text_between, yields_view, ByteClass, Radix, Reading, ZERO,
};
use crate::span::{ParseError, Span};
use crate::text::{decimal, expr_text, push_decimal, push_expr};
use vstd::prelude::*;
use vstd::string::StringExecFns;

verus! {

/// The byte `$`, which opens a register.
pub const DOLLAR: u8 = 36;

/// Which register is meant, by number or by name.
pub enum RegisterId {
    Numbered(u8),
    Named(Seq<char>),
}

/// The mathematical shape of a register operand.
pub enum RegisterOperand {
    /// The register itself.
    Normal(RegisterId),
    /// The address that lies an offset away from what the register holds.
    Offset(ConstExpr, RegisterId),
}

/// A register operand as parsed.
#[derive(Debug, Clone, PartialEq)]
pub enum MpRegister {
    Normal(MpRegisterIdentifier),
    Offset(MpConstValue, MpRegisterIdentifier),
}

/// A register as written behind the `$`: a number up to 255, or a name.
#[derive(Debug, Clone, PartialEq)]
pub enum MpRegisterIdentifier {
    Numbered(u8),
    Named(String),
}

impl View for MpRegisterIdentifier {
    type V = RegisterId;

    open spec fn view(&self) -> RegisterId {
        match self {
            MpRegisterIdentifier::Numbered(n) => RegisterId::Numbered(*n),
            MpRegisterIdentifier::Named(name) => RegisterId::Named(name@),
        }
    }
}

impl View for MpRegister {
    type V = RegisterOperand;

    open spec fn view(&self) -> RegisterOperand {
        match self {
            MpRegister::Normal(id) => RegisterOperand::Normal(id@),
            MpRegister::Offset(offset, id) => RegisterOperand::Offset(offset@, id@),
        }
    }
}

impl RegisterOperand {
    /// The register that the operand names.
    pub open spec fn identifier(self) -> RegisterId {
        match self {
            RegisterOperand::Normal(id) => id,
            RegisterOperand::Offset(_, id) => id,
        }
    }
}

/// A register as written out behind the `$`: a number in decimal, a name as
/// it is.
pub open spec fn identifier_text(id: RegisterId) -> Seq<char> {
    match id {
        RegisterId::Numbered(n) => decimal(n as nat),
        RegisterId::Named(name) => name,
    }
}

/// A register operand written out: `$` and the register, with the offset
/// before it and parentheses around it where there is an offset.
pub open spec fn register_text(r: RegisterOperand) -> Seq<char> {
    match r {
        RegisterOperand::Normal(id) => seq!['$'] + identifier_text(id),
        RegisterOperand::Offset(offset, id) => expr_text(offset) + seq!['(', '$'] + identifier_text(
            id,
        ) + seq![')'],
    }
}

impl MpRegisterIdentifier {
    /// The identifier written out: a number in decimal, a name as it is.
    pub fn to_string(&self) -> (text: String)
        ensures
            text@ == identifier_text(self@),
    {
        let mut text = String::new();
        match self {
            MpRegisterIdentifier::Numbered(n) => push_decimal(&mut text, *n as u64),
            MpRegisterIdentifier::Named(name) => text.append(name.as_str()),
        }
        assert(text@ =~= identifier_text(self@));
        text
    }

    fn copy(&self) -> (r: MpRegisterIdentifier)
        ensures
            r@ == self@,
    {
        match self {
            MpRegisterIdentifier::Numbered(n) => MpRegisterIdentifier::Numbered(*n),
            MpRegisterIdentifier::Named(name) => MpRegisterIdentifier::Named(name.clone()),
        }
    }
}

impl MpRegister {
    /// The register that the operand names.
    pub fn get_identifier(&self) -> (id: &MpRegisterIdentifier)
        ensures
            id@ == self@.identifier(),
    {
        match self {
            MpRegister::Normal(id) => id,
            MpRegister::Offset(_, id) => id,
        }
    }

    /// The operand written out as it is read: `$t0`, `4($sp)`.
    pub fn to_string(&self) -> (text: String)
        ensures
            text@ == register_text(self@),
    {
        let mut text = String::new();
        match self {
            MpRegister::Normal(id) => {
                push_char(&mut text, '$');
                let name = id.to_string();
                text.append(name.as_str());
            },
            MpRegister::Offset(offset, id) => {
                push_expr(&mut text, offset);
                push_char(&mut text, '(');
                push_char(&mut text, '$');
                let name = id.to_string();
                text.append(name.as_str());
                push_char(&mut text, ')');
            },
        }
        assert(text@ =~= register_text(self@));
        text
    }
}

/// A register at `pos`: `$`, then either digits as far as they go or a
/// letter with the letters and digits that follow it. Digits that write a
/// number up to 255 give a numbered register; anything else is a name.
pub open spec fn spec_normal_register(s: Seq<u8>, pos: int) -> Reading<RegisterOperand> {
    if 0 <= pos < s.len() && s[pos] == DOLLAR {
        if pos + 1 < s.len() && is_digit(s[pos + 1]) {
            let end = run_end(s, pos + 1, ByteClass::Digit);
            match bounded_value(s, pos + 1, end, Radix::Decimal, 255) {
                Some(n) => Ok((RegisterOperand::Normal(RegisterId::Numbered(n as u8)), end)),
                None => Ok(
                    (
                        RegisterOperand::Normal(RegisterId::Named(as_chars(s.subrange(pos + 1, end)))),
                        end,
                    ),
                ),
            }
        } else if pos + 1 < s.len() && is_alpha(s[pos + 1]) {
            let end = run_end(s, pos + 1, ByteClass::Alphanumeric);
            Ok(
                (
                    RegisterOperand::Normal(RegisterId::Named(as_chars(s.subrange(pos + 1, end)))),
                    end,
                ),
            )
        } else {
            Err(pos + 1)
        }
    } else {
        Err(pos)
    }
}

/// The offset written at `pos` and the position behind it; where no
/// constant expression can be read there, zero and `pos` itself.
pub open spec fn spec_offset(s: Seq<u8>, pos: int) -> (ConstExpr, int) {
    match spec_constant_value(s, pos) {
        Ok((offset, next)) => (offset, next),
        Err(_) => (ConstExpr::Value(0), pos),
    }
}

/// A register in parentheses at `pos`, taken with `offset`: `(`, a register
/// and `)`, with spaces and tabs allowed before each of them.
pub open spec fn spec_indexed(s: Seq<u8>, pos: int, offset: ConstExpr) -> Reading<RegisterOperand> {
    let open = run_end(s, pos, ByteClass::Blank);
    if 0 <= open < s.len() && s[open] == OPEN {
        match spec_normal_register(s, run_end(s, open + 1, ByteClass::Blank)) {
            Ok((register, after)) => {
                let close = run_end(s, after, ByteClass::Blank);
                if 0 <= close < s.len() && s[close] == CLOSE {
                    Ok((RegisterOperand::Offset(offset, register.identifier()), close + 1))
                } else {
                    Err(close)
                }
            },
            Err(at) => Err(at),
        }
    } else {
        Err(open)
    }
}

/// A register with an offset at `pos`: a constant expression, which may be
/// left out and then counts as zero, and a register in parentheses.
pub open spec fn spec_offset_register(s: Seq<u8>, pos: int) -> Reading<RegisterOperand> {
    spec_indexed(s, spec_offset(s, pos).1, spec_offset(s, pos).0)
}

/// A register operand at `pos`: a register by itself, or else one with an
/// offset.
pub open spec fn spec_register(s: Seq<u8>, pos: int) -> Reading<RegisterOperand> {
    match spec_normal_register(s, pos) {
        Ok(found) => Ok(found),
        Err(_) => spec_offset_register(s, pos),
    }
}

/// Parses a register by itself, `$name` or `$number`.
pub fn parse_normal_register<'a>(i: Span<'a>) -> (r: Result<(Span<'a>, MpRegister), ParseError>)
    ensures
        yields_view(r, i, spec_normal_register(i.bytes(), i.pos() as int)),
        advances(r, i),
        r matches Ok((_, register)) ==> register is Normal,
{
    match i.peek() {
        Some(b) => {
            if b != DOLLAR {
                return Err(i.error());
            }
        },
        None => {
            return Err(i.error());
        },
    }
    let start = i.advance(1);
    let first = match start.peek() {
        Some(b) => b,
        None => {
            return Err(start.error());
        },
    };
    if ByteClass::Digit.test(first) {
        let end = take_while(start, ByteClass::Digit);
        proof {
            lemma_run_end(i.bytes(), start.pos() as int, ByteClass::Digit);
        }
        match read_digits(start, end, Radix::Decimal, 255) {
            Some(n) => Ok((end, MpRegister::Normal(MpRegisterIdentifier::Numbered(n as u8)))),
            None => Ok(
                (end, MpRegister::Normal(MpRegisterIdentifier::Named(text_between(start, end)))),
            ),
        }
    } else if (65 <= first && first <= 90) || (97 <= first && first <= 122) {
        let end = take_while(start, ByteClass::Alphanumeric);
        Ok((end, MpRegister::Normal(MpRegisterIdentifier::Named(text_between(start, end)))))
    } else {
        Err(start.error())
    }
}

/// Parses a register with an offset, `offset($register)`. The offset is a
/// constant expression; where it is left out it is zero.
pub fn parse_offset_register<'a>(i: Span<'a>) -> (r: Result<(Span<'a>, MpRegister), ParseError>)
    ensures
        yields_view(r, i, spec_offset_register(i.bytes(), i.pos() as int)),
        advances(r, i),
{
    let (after, offset) = match parse_constant_value(i) {
        Ok(found) => found,
        Err(_) => (i, MpConstValue::Value(0)),
    };
    let open = take_while(after, ByteClass::Blank);
    match open.peek() {
        Some(b) => {
            if b != OPEN {
                return Err(open.error());
            }
        },
        None => {
            return Err(open.error());
        },
    }
    let (behind, register) = match parse_normal_register(take_while(open.advance(1), ByteClass::Blank)) {
        Ok(found) => found,
        Err(e) => {
            return Err(e);
        },
    };
    let close = take_while(behind, ByteClass::Blank);
    match close.peek() {
        Some(b) => {
            if b == CLOSE {
                Ok((close.advance(1), MpRegister::Offset(offset, register.get_identifier().copy())))
            } else {
                Err(close.error())
            }
        },
        None => Err(close.error()),
    }
}

/// Parses a register operand, with or without an offset.
pub fn parse_register<'a>(i: Span<'a>) -> (r: Result<(Span<'a>, MpRegister), ParseError>)
    ensures
        yields_view(r, i, spec_register(i.bytes(), i.pos() as int)),
        advances(r, i),
{
    match parse_normal_register(i) {
        Ok(found) => Ok(found),
        Err(_) => parse_offset_register(i),
    }
}

/// An offset that is left out counts as zero: where `0` stands directly
/// before the parenthesis and what the parentheses hold is no constant
/// expression, reading the operand with the `0` and reading it from the
/// parenthesis on give the same operand, the same end, and on failure the
/// same error.
pub proof fn lemma_omitted_offset_is_zero(s: Seq<u8>, pos: int)
    requires
        0 <= pos,
        pos + 1 < s.len(),
        s[pos] == ZERO,
        s[pos + 1] == OPEN,
        spec_constant_value(s, pos + 1) is Err,
    ensures
        spec_offset(s, pos) == (ConstExpr::Value(0), pos + 1),
        spec_offset(s, pos + 1) == (ConstExpr::Value(0), pos + 1),
        spec_offset_register(s, pos) == spec_offset_register(s, pos + 1),
{
    lemma_lone_zero(s, pos);
}

} // verus!
