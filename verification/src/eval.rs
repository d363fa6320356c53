//! What a constant expression is worth, given the constants defined so far.
//!
//! Values are 64-bit signed integers. Nothing wraps silently: a result that
//! does not fit, a division by zero, a shift by a count outside `0..64` and a
//! name that nothing defines are each reported as an error. Where both
//! operands of an operator fail, the error of the left one is reported.

use crate::constant::{
    fold_chain, spec_chain, spec_operand, spec_rest, BinaryOp, ConstDefinition, ConstExpr, Level,
    MpConst, MpConstValue, UnaryOp,
};
use vstd::string::StringExecFns;
use vstd::prelude::*;

verus! {

/// Why an expression has no value, as a mathematical value.
pub enum EvalFault {
    /// The expression names a constant that is not defined.
    Unresolved(Seq<char>),
    /// A literal or a result does not fit 64 signed bits.
    Overflow,
    /// The right operand of `/` or `%` is zero.
    DivisionByZero,
    /// The right operand of a shift is negative or above 63.
    ShiftOutOfRange,
}

/// Why an expression has no value.
#[derive(Debug, Clone, PartialEq)]
pub enum EvalError {
    /// The expression names a constant that is not defined.
    Unresolved(String),
    /// A literal or a result does not fit 64 signed bits.
    Overflow,
    /// The right operand of `/` or `%` is zero.
    DivisionByZero,
    /// The right operand of a shift is negative or above 63.
    ShiftOutOfRange,
}

impl View for EvalError {
    type V = EvalFault;

    open spec fn view(&self) -> EvalFault {
        match self {
            EvalError::Unresolved(name) => EvalFault::Unresolved(name@),
            EvalError::Overflow => EvalFault::Overflow,
            EvalError::DivisionByZero => EvalFault::DivisionByZero,
            EvalError::ShiftOutOfRange => EvalFault::ShiftOutOfRange,
        }
    }
}

/// The bindings of names to values.
pub type Bindings = Map<Seq<char>, i64>;

/// `v` as a value, or the overflow error where it does not fit.
pub open spec fn in_range(v: int) -> Result<i64, EvalFault> {
    if i64::MIN <= v <= i64::MAX {
        Ok(v as i64)
    } else {
        Err(EvalFault::Overflow)
    }
}

/// The quotient of `a` by `b`, rounded towards zero.
pub open spec fn quotient(a: int, b: int) -> int {
    if a >= 0 && b > 0 {
        a / b
    } else if a < 0 && b < 0 {
        (-a) / (-b)
    } else if a < 0 {
        -((-a) / b)
    } else {
        -(a / (-b))
    }
}

/// What is left of `a` when `b` is taken from it `quotient(a, b)` times: it
/// has the sign of `a`.
pub open spec fn remainder(a: int, b: int) -> int {
    a - b * quotient(a, b)
}

/// What a prefix operator makes of a value.
pub open spec fn apply_unary(op: UnaryOp, v: i64) -> Result<i64, EvalFault> {
    match op {
        UnaryOp::Minus => in_range(-v),
        UnaryOp::Neg => Ok(!v),
    }
}

/// What a binary operator makes of two values.
pub open spec fn apply_binary(op: BinaryOp, a: i64, b: i64) -> Result<i64, EvalFault> {
    match op {
        BinaryOp::Sum => in_range(a + b),
        BinaryOp::Sub => in_range(a - b),
        BinaryOp::Mult => in_range(a * b),
        BinaryOp::Div => if b == 0 {
            Err(EvalFault::DivisionByZero)
        } else {
            in_range(quotient(a as int, b as int))
        },
        BinaryOp::Mod => if b == 0 {
            Err(EvalFault::DivisionByZero)
        } else {
            in_range(remainder(a as int, b as int))
        },
        BinaryOp::And => Ok(a & b),
        BinaryOp::Or => Ok(a | b),
        BinaryOp::Xor => Ok(a ^ b),
        BinaryOp::Shl => if 0 <= b < 64 {
            Ok(a << (b as u32))
        } else {
            Err(EvalFault::ShiftOutOfRange)
        },
        BinaryOp::Shr => if 0 <= b < 64 {
            Ok(a >> (b as u32))
        } else {
            Err(EvalFault::ShiftOutOfRange)
        },
    }
}

/// The value of an expression under `env`.
pub open spec fn spec_eval(e: ConstExpr, env: Bindings) -> Result<i64, EvalFault>
    decreases e,
{
    match e {
        ConstExpr::Value(v) => in_range(v as int),
        ConstExpr::Const(name) => if env.contains_key(name) {
            Ok(env[name])
        } else {
            Err(EvalFault::Unresolved(name))
        },
        ConstExpr::Unary(op, operand) => match spec_eval(*operand, env) {
            Ok(v) => apply_unary(op, v),
            Err(fault) => Err(fault),
        },
        ConstExpr::Binary(op, left, right) => match spec_eval(*left, env) {
            Ok(a) => match spec_eval(*right, env) {
                Ok(b) => apply_binary(op, a, b),
                Err(fault) => Err(fault),
            },
            Err(fault) => Err(fault),
        },
    }
}

/// `r` is the outcome owed where the mathematics gives `m`.
pub open spec fn agrees(r: Result<i64, EvalError>, m: Result<i64, EvalFault>) -> bool {
    match m {
        Ok(v) => r == Ok::<i64, EvalError>(v),
        Err(fault) => r matches Err(e) && e@ == fault,
    }
}

/// The bindings that a list of definitions makes, a later one replacing an
/// earlier one of the same name.
pub open spec fn bindings_of(entries: Seq<(String, i64)>) -> Bindings
    decreases entries.len(),
{
    if entries.len() == 0 {
        Map::empty()
    } else {
        bindings_of(entries.drop_last()).insert(entries.last().0@, entries.last().1)
    }
}

/// The constants defined so far, each with its value.
#[derive(Debug, Clone, PartialEq)]
pub struct SymbolTable {
    entries: Vec<(String, i64)>,
}

impl View for SymbolTable {
    type V = Bindings;

    closed spec fn view(&self) -> Bindings {
        bindings_of(self.entries@)
    }
}

impl SymbolTable {
    /// A table that defines nothing.
    pub fn new() -> (table: SymbolTable)
        ensures
            table@ == Bindings::empty(),
    {
        SymbolTable { entries: Vec::new() }
    }

    /// The value bound to `name`, if any.
    pub fn get(&self, name: &String) -> (r: Option<i64>)
        ensures
            r == if self@.contains_key(name@) {
                Some(self@[name@])
            } else {
                None::<i64>
            },
    {
        let mut k: usize = self.entries.len();
        proof {
            assert(self.entries@.take(k as int) == self.entries@);
        }
        while k > 0
            invariant
                k <= self.entries@.len(),
                self@.contains_key(name@) == bindings_of(self.entries@.take(k as int)).contains_key(
                    name@,
                ),
                self@.contains_key(name@) ==> self@[name@] == bindings_of(
                    self.entries@.take(k as int),
                )[name@],
            decreases k,
        {
            proof {
                assert(self.entries@.take(k as int).drop_last() == self.entries@.take(k - 1));
            }
            k = k - 1;
            if self.entries[k].0 == *name {
                return Some(self.entries[k].1);
            }
        }
        None
    }

    /// Binds `name` to `value`, in place of what it was bound to before.
    pub fn define(&mut self, name: String, value: i64)
        ensures
            final(self)@ == old(self)@.insert(name@, value),
    {
        self.entries.push((name, value));
        proof {
            assert(self.entries@.drop_last() == old(self).entries@);
        }
    }

    /// A table with the same bindings.
    pub fn copy(&self) -> (table: SymbolTable)
        ensures
            table@ == self@,
    {
        let mut entries: Vec<(String, i64)> = Vec::new();
        let mut k: usize = 0;
        while k < self.entries.len()
            invariant
                k <= self.entries@.len(),
                entries@.len() == k,
                bindings_of(entries@) == bindings_of(self.entries@.take(k as int)),
            decreases self.entries@.len() - k,
        {
            let ghost before = entries@;
            entries.push((self.entries[k].0.clone(), self.entries[k].1));
            proof {
                assert(entries@.drop_last() == before);
                assert(self.entries@.take(k + 1).drop_last() == self.entries@.take(k as int));
            }
            k = k + 1;
        }
        proof {
            assert(self.entries@.take(k as int) == self.entries@);
        }
        SymbolTable { entries }
    }
}

/// Applies a prefix operator to a value.
pub fn unary_value(op: UnaryOp, v: i64) -> (r: Result<i64, EvalError>)
    ensures
        agrees(r, apply_unary(op, v)),
{
    match op {
        UnaryOp::Minus => match 0i64.checked_sub(v) {
            Some(n) => Ok(n),
            None => Err(EvalError::Overflow),
        },
        UnaryOp::Neg => Ok(!v),
    }
}

/// Applies a binary operator to two values.
pub fn binary_value(op: BinaryOp, a: i64, b: i64) -> (r: Result<i64, EvalError>)
    ensures
        agrees(r, apply_binary(op, a, b)),
{
    let found: Option<i64> = match op {
        BinaryOp::Sum => a.checked_add(b),
        BinaryOp::Sub => a.checked_sub(b),
        BinaryOp::Mult => a.checked_mul(b),
        BinaryOp::Div => {
            if b == 0 {
                return Err(EvalError::DivisionByZero);
            }
            proof {
                lemma_quotient(a as int, b as int);
            }
            a.checked_div(b)
        },
        BinaryOp::Mod => {
            if b == 0 {
                return Err(EvalError::DivisionByZero);
            }
            proof {
                lemma_remainder(a as int, b as int);
            }
            if b == -1 {
                Some(0)
            } else {
                a.checked_rem(b)
            }
        },
        BinaryOp::And => Some(a & b),
        BinaryOp::Or => Some(a | b),
        BinaryOp::Xor => Some(a ^ b),
        BinaryOp::Shl => {
            if b < 0 || b >= 64 {
                return Err(EvalError::ShiftOutOfRange);
            }
            Some(a << (b as u32))
        },
        BinaryOp::Shr => {
            if b < 0 || b >= 64 {
                return Err(EvalError::ShiftOutOfRange);
            }
            Some(a >> (b as u32))
        },
    };
    match found {
        Some(v) => Ok(v),
        None => Err(EvalError::Overflow),
    }
}

/// The quotient towards zero, case by case over the signs.
proof fn lemma_quotient(a: int, b: int)
    requires
        b != 0,
    ensures
        a == 0 ==> quotient(a, b) == 0,
        a > 0 && b > 0 ==> quotient(a, b) == a / b,
        a < 0 && b < 0 ==> quotient(a, b) == (a * -1) / (b * -1),
        a < 0 && b > 0 ==> quotient(a, b) == ((a * -1) / b) * -1,
        a > 0 && b < 0 ==> quotient(a, b) == (a / (b * -1)) * -1,
{
    if a == 0 {
        if b > 0 {
            assert(0int / b == 0) by (nonlinear_arith)
                requires
                    b > 0,
            ;
        } else {
            assert(0int / (-b) == 0) by (nonlinear_arith)
                requires
                    b < 0,
            ;
        }
    }
}

/// The remainder with the sign of the dividend, case by case over the
/// signs, and its size.
proof fn lemma_remainder(a: int, b: int)
    requires
        b != 0,
    ensures
        a == 0 ==> remainder(a, b) == 0,
        a > 0 && b > 0 ==> remainder(a, b) == a % b,
        a < 0 && b < 0 ==> remainder(a, b) == ((a * -1) % (b * -1)) * -1,
        a < 0 && b > 0 ==> remainder(a, b) == ((a * -1) % b) * -1,
        a > 0 && b < 0 ==> remainder(a, b) == a % (b * -1),
        b == -1 ==> remainder(a, b) == 0,
        -a <= remainder(a, b) <= a || a <= remainder(a, b) <= -a,
{
    lemma_quotient(a, b);
    let m: int = if a < 0 {
        -a
    } else {
        a
    };
    let d: int = if b < 0 {
        -b
    } else {
        b
    };
    assert(m == d * (m / d) + m % d && 0 <= m % d < d && 0 <= m % d <= m) by (nonlinear_arith)
        requires
            m >= 0,
            d > 0,
    ;
    assert(b * quotient(a, b) == if a < 0 {
        -(d * (m / d))
    } else {
        d * (m / d)
    }) by (nonlinear_arith)
        requires
            quotient(a, b) == (if (a < 0) == (b < 0) {
                m / d
            } else {
                -(m / d)
            }),
            d == (if b < 0 {
                -b
            } else {
                b
            }),
    ;
    if d == 1 {
        assert(m % 1 == 0) by (nonlinear_arith);
    }
}

/// Evaluates an expression under the constants of `env`.
pub fn eval(e: &MpConstValue, env: &SymbolTable) -> (r: Result<i64, EvalError>)
    ensures
        agrees(r, spec_eval(e@, env@)),
    decreases e@,
{
    match e {
        MpConstValue::Value(v) => {
            if *v <= i64::MAX as u64 {
                Ok(*v as i64)
            } else {
                Err(EvalError::Overflow)
            }
        },
        MpConstValue::Const(name) => match env.get(name) {
            Some(v) => Ok(v),
            None => Err(EvalError::Unresolved(name.clone())),
        },
        _ => {
            if let Some((op, operand)) = e.as_unary() {
                match eval(operand, env) {
                    Ok(v) => unary_value(op, v),
                    Err(fault) => Err(fault),
                }
            } else if let Some((op, left, right)) = e.as_binary() {
                let a = match eval(left, env) {
                    Ok(a) => a,
                    Err(fault) => {
                        return Err(fault);
                    },
                };
                match eval(right, env) {
                    Ok(b) => binary_value(op, a, b),
                    Err(fault) => Err(fault),
                }
            } else {
                Err(EvalError::Overflow)
            }
        },
    }
}

/// What an operator with its right operand makes of the value to its left.
/// An error to the left stays; otherwise the right operand is evaluated and
/// the operator applied.
pub open spec fn step(
    left: Result<i64, EvalFault>,
    item: (BinaryOp, ConstExpr),
    env: Bindings,
) -> Result<i64, EvalFault> {
    match left {
        Ok(a) => match spec_eval(item.1, env) {
            Ok(b) => apply_binary(item.0, a, b),
            Err(fault) => Err(fault),
        },
        Err(fault) => Err(fault),
    }
}

/// The value reached from `first` by taking the operators of `items` one
/// after the other, from left to right.
pub open spec fn eval_chain(
    first: Result<i64, EvalFault>,
    items: Seq<(BinaryOp, ConstExpr)>,
    env: Bindings,
) -> Result<i64, EvalFault>
    decreases items.len(),
{
    if items.len() == 0 {
        first
    } else {
        step(eval_chain(first, items.drop_last(), env), items.last(), env)
    }
}

/// Operators of one level are evaluated strictly from left to right: the
/// value of a first operand followed by operators with their operands is
/// what comes of applying each operator in turn to all that stands to its
/// left.
pub proof fn lemma_chain_evaluates_left_to_right(
    first: ConstExpr,
    items: Seq<(BinaryOp, ConstExpr)>,
    env: Bindings,
)
    ensures
        spec_eval(fold_chain(first, items), env) == eval_chain(spec_eval(first, env), items, env),
    decreases items.len(),
{
    if items.len() > 0 {
        lemma_chain_evaluates_left_to_right(first, items.drop_last(), env);
    }
}

/// Every expression that the grammar reads at one level is such a chain, so
/// its value is reached from left to right.
pub proof fn lemma_parsed_chain_value(s: Seq<u8>, pos: int, level: Level, env: Bindings)
    requires
        spec_chain(s, pos, level) is Ok,
    ensures
        spec_operand(s, pos, level) matches Ok((first, next)) && spec_chain(s, pos, level) matches Ok(
            (e, _),
        ) && e == fold_chain(first, spec_rest(s, next, level).0) && spec_eval(e, env) == eval_chain(
            spec_eval(first, env),
            spec_rest(s, next, level).0,
            env,
        ),
{
    match spec_operand(s, pos, level) {
        Ok((first, next)) => {
            lemma_chain_evaluates_left_to_right(first, spec_rest(s, next, level).0, env);
        },
        Err(_) => {},
    }
}

/// Why a list of constant definitions could not be resolved, as a
/// mathematical value.
pub struct ResolutionFault {
    /// Which definition failed, counted from 0.
    pub index: int,
    /// Why its expression has no value.
    pub fault: EvalFault,
    /// Where the definition starts and ends in the source.
    pub line: u32,
    pub col: u32,
    pub line_end: u32,
    pub col_end: u32,
}

/// Why a list of constant definitions could not be resolved.
#[derive(Debug, Clone, PartialEq)]
pub struct ResolutionError {
    /// Which definition failed, counted from 0.
    pub index: usize,
    /// Why its expression has no value.
    pub fault: EvalError,
    /// Where the definition starts and ends in the source.
    pub line: u32,
    pub col: u32,
    pub line_end: u32,
    pub col_end: u32,
}

impl View for ResolutionError {
    type V = ResolutionFault;

    open spec fn view(&self) -> ResolutionFault {
        ResolutionFault {
            index: self.index as int,
            fault: self.fault@,
            line: self.line,
            col: self.col,
            line_end: self.line_end,
            col_end: self.col_end,
        }
    }
}

/// What the definitions say, one for one.
pub open spec fn definitions(defs: Seq<MpConst>) -> Seq<ConstDefinition> {
    defs.map_values(|d: MpConst| d@)
}

/// The bindings after the first `upto` definitions have been resolved in
/// their order on top of `base`, each expression evaluated under the
/// bindings made before it; or the first definition that has no value.
pub open spec fn resolve_upto(defs: Seq<ConstDefinition>, upto: int, base: Bindings) -> Result<
    Bindings,
    ResolutionFault,
>
    decreases upto,
{
    if upto <= 0 {
        Ok(base)
    } else {
        match resolve_upto(defs, upto - 1, base) {
            Ok(env) => {
                let def = defs[upto - 1];
                match spec_eval(def.value, env) {
                    Ok(v) => Ok(env.insert(def.label, v)),
                    Err(fault) => Err(
                        ResolutionFault {
                            index: upto - 1,
                            fault,
                            line: def.line,
                            col: def.col,
                            line_end: def.line_end,
                            col_end: def.col_end,
                        },
                    ),
                }
            },
            Err(fault) => Err(fault),
        }
    }
}

/// The bindings that `defs` make on top of `base`.
pub open spec fn spec_resolve(defs: Seq<ConstDefinition>, base: Bindings) -> Result<
    Bindings,
    ResolutionFault,
> {
    resolve_upto(defs, defs.len() as int, base)
}

/// Resolves constant definitions in their order on top of `base`, which is
/// left as it was. A definition may use those before it and what `base`
/// defines; one that names itself or a later one fails as unresolved.
pub fn resolve_constants(defs: &Vec<MpConst>, base: &SymbolTable) -> (r: Result<
    SymbolTable,
    ResolutionError,
>)
    ensures
        match spec_resolve(definitions(defs@), base@) {
            Ok(env) => r matches Ok(table) && table@ == env,
            Err(fault) => r matches Err(e) && e@ == fault,
        },
{
    let mut table = base.copy();
    let mut k: usize = 0;
    while k < defs.len()
        invariant
            k <= defs@.len(),
            resolve_upto(definitions(defs@), k as int, base@) == Ok::<Bindings, ResolutionFault>(
                table@,
            ),
        decreases defs@.len() - k,
    {
        let def = &defs[k];
        assert(definitions(defs@)[k as int] == def@);
        match eval(def.value(), &table) {
            Ok(v) => {
                table.define(String::from_str(def.label()), v);
            },
            Err(fault) => {
                let e = ResolutionError {
                    index: k,
                    fault,
                    line: def.line(),
                    col: def.col(),
                    line_end: def.line_end(),
                    col_end: def.col_end(),
                };
                proof {
                    lemma_failure_stays(definitions(defs@), k + 1, defs@.len() as int, base@);
                }
                return Err(e);
            },
        }
        k = k + 1;
    }
    Ok(table)
}

/// Once a definition has failed, resolving further ones reports the same
/// failure.
proof fn lemma_failure_stays(defs: Seq<ConstDefinition>, failed: int, upto: int, base: Bindings)
    requires
        failed <= upto,
        resolve_upto(defs, failed, base) is Err,
    ensures
        resolve_upto(defs, upto, base) == resolve_upto(defs, failed, base),
    decreases upto - failed,
{
    if failed < upto {
        lemma_failure_stays(defs, failed, upto - 1, base);
    }
}

} // verus!
