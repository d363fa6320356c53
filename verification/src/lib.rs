//! The core of a teaching toolchain for a MIPS-like machine: how operands
//! are read, what constants are worth, and what a debugger session does when
//! a program is stepped forwards and backwards.
//!
//! - [`span`] and [`lex`]: a cursor over source bytes, and the tokens.
//! - [`constant`] and [`register`]: constant expressions, constant
//!   definitions and register operands, each with its grammar and a parser
//!   proved to follow it; [`text`] writes them out again, and [`roundtrip`]
//!   shows that what is written reads back as itself.
//! - [`eval`]: the value of an expression, and the resolution of a list of
//!   definitions.
//! - [`machine`] and [`session`]: the machine's state, and the session that
//!   keeps its history.
//! - [`command`], [`dot`] and [`labels`]: the debugger's commands.
//! - [`frontend`]: what a page that shows a session decides before it draws.

pub mod command;
pub mod constant;
pub mod dot;
pub mod eval;
pub mod frontend;
pub mod labels;
pub mod lex;
pub mod machine;
pub mod register;
pub mod roundtrip;
pub mod session;
pub mod span;
pub mod text;
