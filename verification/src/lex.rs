//! The tokens that the operand grammar is made of: blank space and comments,
//! identifiers, integer literals and character literals.
//!
//! Each token has a spec function that reads it off a byte string at a
//! position, and an executable parser on a [`Span`] that is proved to agree
//! with it.

use crate::span::{error_at, ParseError, Span, NEWLINE};
use vstd::prelude::*;

verus! {

/// The byte `#`, which opens a comment that runs to the end of its line.
pub const HASH: u8 = 35;

/// The byte `_`.
pub const UNDERSCORE: u8 = 95;

/// The byte `'`, which encloses a character literal.
pub const QUOTE: u8 = 39;

/// The byte `\`, which opens an escape inside a character literal.
pub const BACKSLASH: u8 = 92;

/// The byte `0`.
pub const ZERO: u8 = 48;

/// What a grammar function gives for one input and position: the value read
/// and the position behind it, or the position at which reading failed.
pub type Reading<T> = Result<(T, int), int>;

/// `r` is the outcome owed on input `i` where the grammar gives `m`: the same
/// value with the rest of the same input, or the error at the same place.
pub open spec fn yields<'a, T>(r: Result<(Span<'a>, T), ParseError>, i: Span<'a>, m: Reading<T>) -> bool {
    match m {
        Ok((v, next)) => r matches Ok((rest, t)) && t == v && rest.bytes() == i.bytes()
            && rest.pos() == next,
        Err(at) => r matches Err(e) && at >= 0 && e == error_at(i.bytes(), at as nat),
    }
}

/// As [`yields`], for a value that is compared by its view.
pub open spec fn yields_view<'a, T: View>(
    r: Result<(Span<'a>, T), ParseError>,
    i: Span<'a>,
    m: Reading<T::V>,
) -> bool {
    match m {
        Ok((v, next)) => r matches Ok((rest, t)) && t@ == v && rest.bytes() == i.bytes()
            && rest.pos() == next,
        Err(at) => r matches Err(e) && at >= 0 && e == error_at(i.bytes(), at as nat),
    }
}

/// A parse that succeeded took at least one byte and stayed inside the
/// input.
pub open spec fn advances<'a, T>(r: Result<(Span<'a>, T), ParseError>, i: Span<'a>) -> bool {
    r matches Ok((rest, _)) ==> i.pos() < rest.pos() <= i.bytes().len()
}

/// A set of bytes that a run of input may be drawn from.
#[derive(Clone, Copy, Debug, PartialEq, Eq, Structural)]
pub enum ByteClass {
    /// `0` and `1`.
    Binary,
    /// `0` to `7`.
    Octal,
    /// `0` to `9`.
    Digit,
    /// `0` to `9`, `a` to `f` and `A` to `F`.
    Hex,
    /// ASCII letters and digits.
    Alphanumeric,
    /// ASCII letters, digits and `_`.
    IdentPart,
    /// Space and tab.
    Blank,
}

pub open spec fn is_digit(b: u8) -> bool {
    48 <= b <= 57
}

pub open spec fn is_alpha(b: u8) -> bool {
    65 <= b <= 90 || 97 <= b <= 122
}

pub open spec fn is_hex(b: u8) -> bool {
    is_digit(b) || 65 <= b <= 70 || 97 <= b <= 102
}

/// Space, tab, carriage return and line feed.
pub open spec fn is_space(b: u8) -> bool {
    b == 32 || b == 9 || b == 13 || b == NEWLINE
}

/// The bytes that may open an identifier: a letter or `_`.
pub open spec fn is_ident_start(b: u8) -> bool {
    is_alpha(b) || b == UNDERSCORE
}

impl ByteClass {
    /// Whether `b` belongs to the class.
    pub open spec fn holds(self, b: u8) -> bool {
        match self {
            ByteClass::Binary => 48 <= b <= 49,
            ByteClass::Octal => 48 <= b <= 55,
            ByteClass::Digit => is_digit(b),
            ByteClass::Hex => is_hex(b),
            ByteClass::Alphanumeric => is_alpha(b) || is_digit(b),
            ByteClass::IdentPart => is_alpha(b) || is_digit(b) || b == UNDERSCORE,
            ByteClass::Blank => b == 32 || b == 9,
        }
    }

    /// Whether `b` belongs to the class.
    pub fn test(self, b: u8) -> (r: bool)
        ensures
            r == self.holds(b),
    {
        let digit = 48 <= b && b <= 57;
        let alpha = (65 <= b && b <= 90) || (97 <= b && b <= 122);
        match self {
            ByteClass::Binary => 48 <= b && b <= 49,
            ByteClass::Octal => 48 <= b && b <= 55,
            ByteClass::Digit => digit,
            ByteClass::Hex => digit || (65 <= b && b <= 70) || (97 <= b && b <= 102),
            ByteClass::Alphanumeric => alpha || digit,
            ByteClass::IdentPart => alpha || digit || b == UNDERSCORE,
            ByteClass::Blank => b == 32 || b == 9,
        }
    }
}

/// End of the longest run of bytes of `class` that starts at `pos`.
pub open spec fn run_end(s: Seq<u8>, pos: int, class: ByteClass) -> int
    decreases s.len() - pos,
{
    if 0 <= pos < s.len() && class.holds(s[pos]) {
        run_end(s, pos + 1, class)
    } else {
        pos
    }
}

/// A run ends inside the input, at or behind its start, holds only bytes of
/// its class, and cannot be made longer.
pub proof fn lemma_run_end(s: Seq<u8>, pos: int, class: ByteClass)
    requires
        0 <= pos <= s.len(),
    ensures
        pos <= run_end(s, pos, class) <= s.len(),
        forall|k: int| pos <= k < run_end(s, pos, class) ==> class.holds(#[trigger] s[k]),
        run_end(s, pos, class) < s.len() ==> !class.holds(s[run_end(s, pos, class)]),
    decreases s.len() - pos,
{
    if pos < s.len() && class.holds(s[pos]) {
        lemma_run_end(s, pos + 1, class);
    }
}

/// A run over bytes of its class ends at the first byte that is not of the
/// class, or at the end of the input.
pub proof fn lemma_run_stops(s: Seq<u8>, pos: int, end: int, class: ByteClass)
    requires
        0 <= pos <= end <= s.len(),
        forall|k: int| pos <= k < end ==> class.holds(#[trigger] s[k]),
        end < s.len() ==> !class.holds(s[end]),
    ensures
        run_end(s, pos, class) == end,
    decreases end - pos,
{
    if pos < end {
        lemma_run_stops(s, pos + 1, end, class);
    }
}

/// Skips the longest run of bytes of `class` at the span.
pub fn take_while<'a>(i: Span<'a>, class: ByteClass) -> (rest: Span<'a>)
    ensures
        rest.bytes() == i.bytes(),
        rest.pos() == run_end(i.bytes(), i.pos() as int, class),
        i.pos() <= rest.pos() <= i.bytes().len(),
{
    let mut cur = i;
    loop
        invariant
            cur.bytes() == i.bytes(),
            i.pos() <= cur.pos(),
            run_end(i.bytes(), i.pos() as int, class) == run_end(i.bytes(), cur.pos() as int, class),
        decreases i.bytes().len() - cur.pos(),
    {
        match cur.peek() {
            Some(b) => {
                if class.test(b) {
                    cur = cur.advance(1);
                } else {
                    return cur;
                }
            },
            None => {
                return cur;
            },
        }
    }
}

/// The position behind the blank space and comments that start at `pos`.
/// `in_comment` says whether `pos` lies inside a comment, which ends with
/// its line.
pub open spec fn skip_blank(s: Seq<u8>, pos: int, in_comment: bool) -> int
    decreases s.len() - pos,
{
    if pos < 0 || pos >= s.len() {
        pos
    } else if in_comment {
        skip_blank(s, pos + 1, s[pos] != NEWLINE)
    } else if is_space(s[pos]) {
        skip_blank(s, pos + 1, false)
    } else if s[pos] == HASH {
        skip_blank(s, pos + 1, true)
    } else {
        pos
    }
}

/// The position of the first byte at or behind `pos` that is neither blank
/// nor part of a comment.
pub open spec fn blank_end(s: Seq<u8>, pos: int) -> int {
    skip_blank(s, pos, false)
}

/// Skipping blank space never moves backwards nor leaves the input.
pub proof fn lemma_skip_blank_bounds(s: Seq<u8>, pos: int, in_comment: bool)
    requires
        0 <= pos <= s.len(),
    ensures
        pos <= skip_blank(s, pos, in_comment) <= s.len(),
    decreases s.len() - pos,
{
    if pos < s.len() {
        if in_comment {
            lemma_skip_blank_bounds(s, pos + 1, s[pos] != NEWLINE);
        } else if is_space(s[pos]) {
            lemma_skip_blank_bounds(s, pos + 1, false);
        } else if s[pos] == HASH {
            lemma_skip_blank_bounds(s, pos + 1, true);
        }
    }
}

/// Skips blank space and `#` comments. Never fails: where nothing can be
/// skipped the span comes back unchanged.
pub fn comment_multispace0<'a>(i: Span<'a>) -> (rest: Span<'a>)
    ensures
        rest.bytes() == i.bytes(),
        rest.pos() == blank_end(i.bytes(), i.pos() as int),
        i.pos() <= rest.pos() <= i.bytes().len(),
{
    let mut cur = i;
    let mut in_comment = false;
    loop
        invariant
            cur.bytes() == i.bytes(),
            i.pos() <= cur.pos(),
            blank_end(i.bytes(), i.pos() as int) == skip_blank(
                i.bytes(),
                cur.pos() as int,
                in_comment,
            ),
        decreases i.bytes().len() - cur.pos(),
    {
        match cur.peek() {
            Some(b) => {
                if in_comment {
                    in_comment = b != NEWLINE;
                } else if b == 32 || b == 9 || b == 13 || b == NEWLINE {
                } else if b == HASH {
                    in_comment = true;
                } else {
                    return cur;
                }
                cur = cur.advance(1);
            },
            None => {
                return cur;
            },
        }
    }
}

/// The characters that stand for the bytes of `s`, one for one.
pub open spec fn as_chars(s: Seq<u8>) -> Seq<char> {
    Seq::new(s.len(), |k: int| s[k] as char)
}

/// `String::push` of std: appends one character to the string.
#[verifier::external_body]
pub(crate) fn push_char(text: &mut String, c: char)
    ensures
        final(text)@ == old(text)@.push(c),
{
    text.push(c)
}

/// The text made of the bytes between two spans of one input, each byte
/// taken as the character of the same code.
pub(crate) fn text_between<'a>(from: Span<'a>, to: Span<'a>) -> (text: String)
    requires
        from.bytes() == to.bytes(),
        from.pos() <= to.pos(),
    ensures
        text@ == as_chars(from.bytes().subrange(from.pos() as int, to.pos() as int)),
{
    let mut text = String::new();
    let mut cur = from;
    let end: usize = to.location_offset();
    while cur.location_offset() < end
        invariant
            cur.bytes() == from.bytes(),
            from.pos() <= cur.pos() <= end == to.pos() <= from.bytes().len(),
            text@ == as_chars(from.bytes().subrange(from.pos() as int, cur.pos() as int)),
        decreases end - cur.pos(),
    {
        match cur.peek() {
            Some(b) => {
                push_char(&mut text, b as char);
                assert(from.bytes().subrange(from.pos() as int, cur.pos() as int + 1)
                    == from.bytes().subrange(from.pos() as int, cur.pos() as int).push(b));
                assert(as_chars(from.bytes().subrange(from.pos() as int, cur.pos() as int).push(b))
                    == as_chars(from.bytes().subrange(from.pos() as int, cur.pos() as int)).push(
                    b as char,
                ));
                cur = cur.advance(1);
            },
            None => {
                return text;
            },
        }
    }
    text
}

/// An identifier at `pos`: a letter or `_`, then letters, digits and `_` as
/// far as they go.
pub open spec fn spec_ident(s: Seq<u8>, pos: int) -> Reading<Seq<char>> {
    if 0 <= pos < s.len() && is_ident_start(s[pos]) {
        let end = run_end(s, pos + 1, ByteClass::IdentPart);
        Ok((as_chars(s.subrange(pos, end)), end))
    } else {
        Err(pos)
    }
}

/// Parses an identifier.
pub fn parse_ident<'a>(i: Span<'a>) -> (r: Result<(Span<'a>, String), ParseError>)
    ensures
        yields_view(r, i, spec_ident(i.bytes(), i.pos() as int)),
        advances(r, i),
{
    match i.peek() {
        Some(b) => {
            if (65 <= b && b <= 90) || (97 <= b && b <= 122) || b == UNDERSCORE {
                let rest = take_while(i.advance(1), ByteClass::IdentPart);
                Ok((rest, text_between(i, rest)))
            } else {
                Err(i.error())
            }
        },
        None => Err(i.error()),
    }
}

/// The base of an integer literal.
#[derive(Clone, Copy, Debug, PartialEq, Eq, Structural)]
pub enum Radix {
    Binary,
    Octal,
    Decimal,
    Hex,
}

impl Radix {
    /// The number that one place to the left multiplies a digit by.
    pub open spec fn base(self) -> int {
        match self {
            Radix::Binary => 2,
            Radix::Octal => 8,
            Radix::Decimal => 10,
            Radix::Hex => 16,
        }
    }

    /// The digits of the base.
    pub open spec fn digits(self) -> ByteClass {
        match self {
            Radix::Binary => ByteClass::Binary,
            Radix::Octal => ByteClass::Octal,
            Radix::Decimal => ByteClass::Digit,
            Radix::Hex => ByteClass::Hex,
        }
    }

    fn base_of(self) -> (b: u64)
        ensures
            b == self.base(),
    {
        match self {
            Radix::Binary => 2,
            Radix::Octal => 8,
            Radix::Decimal => 10,
            Radix::Hex => 16,
        }
    }

    fn digits_of(self) -> (c: ByteClass)
        ensures
            c == self.digits(),
    {
        match self {
            Radix::Binary => ByteClass::Binary,
            Radix::Octal => ByteClass::Octal,
            Radix::Decimal => ByteClass::Digit,
            Radix::Hex => ByteClass::Hex,
        }
    }
}

/// What a digit is worth: `0` to `9` as they read, `a` to `f` in either case
/// as 10 to 15.
pub open spec fn digit_value(b: u8) -> int {
    if is_digit(b) {
        b - 48
    } else if 97 <= b <= 102 {
        b - 87
    } else {
        b - 55
    }
}

/// The number that the digits `s[from..to]` write in base `base`, the most
/// significant digit first.
pub open spec fn digits_value(s: Seq<u8>, from: int, to: int, base: int) -> int
    decreases to - from,
{
    if to <= from {
        0
    } else {
        digits_value(s, from, to - 1, base) * base + digit_value(s[to - 1])
    }
}

/// The number that digits write depends on those digits alone, not on
/// where in which input they stand: `t` holds, `shift` places further on,
/// the digits that `s` holds from `from` to `to`.
pub proof fn lemma_digits_value_moves(s: Seq<u8>, from: int, to: int, t: Seq<u8>, shift: int, base: int)
    requires
        forall|k: int| from <= k < to ==> #[trigger] s[k] == t[k + shift],
    ensures
        digits_value(s, from, to, base) == digits_value(t, from + shift, to + shift, base),
    decreases to - from,
{
    if to > from {
        lemma_digits_value_moves(s, from, to - 1, t, shift, base);
        assert(s[to - 1] == t[to - 1 + shift]);
    }
}

/// The number written by a run of digits, if it is at most `limit`.
pub open spec fn bounded_value(s: Seq<u8>, from: int, to: int, radix: Radix, limit: int) -> Option<int> {
    let value = digits_value(s, from, to, radix.base());
    if value <= limit {
        Some(value)
    } else {
        None
    }
}

/// Reads the number that the digits between two spans of one input write,
/// and gives it up where it exceeds `limit`.
pub(crate) fn read_digits<'a>(from: Span<'a>, to: Span<'a>, radix: Radix, limit: u32) -> (r: Option<u32>)
    requires
        from.bytes() == to.bytes(),
        from.pos() <= to.pos(),
        forall|k: int| from.pos() <= k < to.pos() ==> radix.digits().holds(#[trigger] from.bytes()[k]),
    ensures
        r matches Some(v) ==> bounded_value(
            from.bytes(),
            from.pos() as int,
            to.pos() as int,
            radix,
            limit as int,
        ) == Some(v as int),
        r is None ==> bounded_value(
            from.bytes(),
            from.pos() as int,
            to.pos() as int,
            radix,
            limit as int,
        ) is None,
{
    let base: u64 = radix.base_of();
    let end: usize = to.location_offset();
    let mut cur = from;
    let mut acc: u64 = 0;
    let mut over = false;
    while cur.location_offset() < end
        invariant
            cur.bytes() == from.bytes(),
            from.pos() <= cur.pos() <= end == to.pos() <= from.bytes().len(),
            base == radix.base(),
            forall|k: int|
                from.pos() <= k < to.pos() ==> radix.digits().holds(#[trigger] from.bytes()[k]),
            !over ==> acc == digits_value(from.bytes(), from.pos() as int, cur.pos() as int, base as int),
            !over ==> acc <= limit,
            over ==> digits_value(from.bytes(), from.pos() as int, cur.pos() as int, base as int)
                > limit,
        decreases end - cur.pos(),
    {
        match cur.peek() {
            Some(b) => {
                let ghost before = digits_value(
                    from.bytes(),
                    from.pos() as int,
                    cur.pos() as int,
                    base as int,
                );
                assert(radix.digits().holds(from.bytes()[cur.pos() as int]));
                let digit: u64 = if b <= 57 {
                    (b - 48) as u64
                } else if b >= 97 {
                    (b - 87) as u64
                } else {
                    (b - 55) as u64
                };
                assert(digit == digit_value(b));
                assert(0 <= digit < 16);
                if over {
                    assert(before * base + digit > limit) by (nonlinear_arith)
                        requires
                            before > limit,
                            base >= 2,
                            digit >= 0,
                            limit >= 0,
                    ;
                } else {
                    assert(acc * base + digit <= 0xffff_ffff * 16 + 15) by (nonlinear_arith)
                        requires
                            0 <= acc <= 0xffff_ffff,
                            0 <= base <= 16,
                            0 <= digit <= 15,
                    ;
                    acc = acc * base + digit;
                    if acc > limit as u64 {
                        over = true;
                    }
                }
                cur = cur.advance(1);
            },
            None => {
                return None;
            },
        }
    }
    if over {
        None
    } else {
        Some(acc as u32)
    }
}

/// How an integer literal at `pos` is written, and where its digits start:
/// `0x` or `0X` before hexadecimal digits, `0b` or `0B` before binary digits,
/// `0` before octal digits, or decimal digits alone. A prefix counts only
/// where a digit of its base follows it.
pub open spec fn number_form(s: Seq<u8>, pos: int) -> Option<(Radix, int)> {
    if pos < 0 || pos >= s.len() || !is_digit(s[pos]) {
        None
    } else if s[pos] == ZERO && pos + 2 < s.len() && (s[pos + 1] == 120 || s[pos + 1] == 88)
        && is_hex(s[pos + 2]) {
        Some((Radix::Hex, pos + 2))
    } else if s[pos] == ZERO && pos + 2 < s.len() && (s[pos + 1] == 98 || s[pos + 1] == 66)
        && ByteClass::Binary.holds(s[pos + 2]) {
        Some((Radix::Binary, pos + 2))
    } else if s[pos] == ZERO && pos + 1 < s.len() && ByteClass::Octal.holds(s[pos + 1]) {
        Some((Radix::Octal, pos + 1))
    } else {
        Some((Radix::Decimal, pos))
    }
}

/// An unsigned 32-bit integer literal at `pos`: the digits of its form as
/// far as they go. A literal whose value does not fit 32 bits is an error at
/// its first byte.
pub open spec fn spec_u32(s: Seq<u8>, pos: int) -> Reading<u32> {
    match number_form(s, pos) {
        Some((radix, start)) => {
            let end = run_end(s, start, radix.digits());
            match bounded_value(s, start, end, radix, u32::MAX as int) {
                Some(value) => Ok((value as u32, end)),
                None => Err(pos),
            }
        },
        None => Err(pos),
    }
}

/// An integer literal that can be read takes at least one byte and ends
/// inside the input.
pub proof fn lemma_u32_advances(s: Seq<u8>, pos: int)
    ensures
        spec_u32(s, pos) matches Ok((_, next)) ==> pos < next <= s.len(),
{
    match number_form(s, pos) {
        Some((radix, start)) => {
            lemma_run_end(s, start, radix.digits());
            if start == pos {
                lemma_run_end(s, pos + 1, radix.digits());
            }
        },
        None => {},
    }
}

fn classify_number<'a>(i: Span<'a>) -> (r: Option<(Radix, Span<'a>)>)
    ensures
        match number_form(i.bytes(), i.pos() as int) {
            Some((radix, start)) => r matches Some((found, digits)) && found == radix
                && digits.bytes() == i.bytes() && digits.pos() == start && start
                <= i.bytes().len(),
            None => r is None,
        },
{
    let first = match i.peek() {
        Some(b) => b,
        None => {
            return None;
        },
    };
    if first < 48 || first > 57 {
        return None;
    }
    if first == ZERO {
        match (i.peek_at(1), i.peek_at(2)) {
            (Some(mark), Some(next)) => {
                if (mark == 120 || mark == 88) && ByteClass::Hex.test(next) {
                    return Some((Radix::Hex, i.advance(2)));
                }
                if (mark == 98 || mark == 66) && ByteClass::Binary.test(next) {
                    return Some((Radix::Binary, i.advance(2)));
                }
            },
            _ => {},
        }
        match i.peek_at(1) {
            Some(next) => {
                if ByteClass::Octal.test(next) {
                    return Some((Radix::Octal, i.advance(1)));
                }
            },
            None => {},
        }
    }
    Some((Radix::Decimal, i))
}

/// Parses an unsigned 32-bit integer literal.
pub fn parse_u32<'a>(i: Span<'a>) -> (r: Result<(Span<'a>, u32), ParseError>)
    ensures
        yields(r, i, spec_u32(i.bytes(), i.pos() as int)),
        advances(r, i),
{
    match classify_number(i) {
        Some((radix, digits)) => {
            let rest = take_while(digits, radix.digits_of());
            proof {
                lemma_run_end(i.bytes(), digits.pos() as int, radix.digits());
                lemma_u32_advances(i.bytes(), i.pos() as int);
            }
            match read_digits(digits, rest, radix, u32::MAX) {
                Some(value) => Ok((rest, value)),
                None => Err(i.error()),
            }
        },
        None => Err(i.error()),
    }
}

/// The byte that an escape letter stands for inside a character literal:
/// `\0`, `\t`, `\n`, `\r`, `\"`, `\'` and `\\`.
pub open spec fn escape_value(b: u8) -> Option<u8> {
    if b == ZERO {
        Some(0u8)
    } else if b == 116 {
        Some(9u8)
    } else if b == 110 {
        Some(10u8)
    } else if b == 114 {
        Some(13u8)
    } else if b == 34 || b == QUOTE || b == BACKSLASH {
        Some(b)
    } else {
        None
    }
}

/// A character literal at `pos`: one byte other than `'` and `\`, or one
/// escape, between two `'`.
pub open spec fn spec_char(s: Seq<u8>, pos: int) -> Reading<u8> {
    if 0 <= pos && pos + 2 < s.len() && s[pos] == QUOTE {
        if s[pos + 1] == BACKSLASH {
            if pos + 3 < s.len() && s[pos + 3] == QUOTE {
                match escape_value(s[pos + 2]) {
                    Some(b) => Ok((b, pos + 4)),
                    None => Err(pos),
                }
            } else {
                Err(pos)
            }
        } else if s[pos + 1] != QUOTE && s[pos + 2] == QUOTE {
            Ok((s[pos + 1], pos + 3))
        } else {
            Err(pos)
        }
    } else {
        Err(pos)
    }
}

fn unescape(b: u8) -> (r: Option<u8>)
    ensures
        r == escape_value(b),
{
    if b == ZERO {
        Some(0)
    } else if b == 116 {
        Some(9)
    } else if b == 110 {
        Some(10)
    } else if b == 114 {
        Some(13)
    } else if b == 34 || b == QUOTE || b == BACKSLASH {
        Some(b)
    } else {
        None
    }
}

/// Parses a character literal and gives the byte it stands for.
pub fn parse_char<'a>(i: Span<'a>) -> (r: Result<(Span<'a>, u8), ParseError>)
    ensures
        yields(r, i, spec_char(i.bytes(), i.pos() as int)),
        advances(r, i),
{
    match (i.peek(), i.peek_at(1), i.peek_at(2)) {
        (Some(open), Some(first), Some(second)) => {
            if open != QUOTE {
                Err(i.error())
            } else if first == BACKSLASH {
                match (unescape(second), i.peek_at(3)) {
                    (Some(b), Some(close)) => {
                        if close == QUOTE {
                            Ok((i.advance(4), b))
                        } else {
                            Err(i.error())
                        }
                    },
                    _ => Err(i.error()),
                }
            } else if first != QUOTE && second == QUOTE {
                Ok((i.advance(3), first))
            } else {
                Err(i.error())
            }
        },
        _ => Err(i.error()),
    }
}

} // verus!
