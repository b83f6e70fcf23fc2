//! Pieces of netlist text: identifiers, values and bracket expressions.
//!
//! A value is a decimal number, optionally followed by an engineering
//! suffix: `10`, `10.0`, `1e-6`, `4.7k`, `10mA`. A bracket expression is
//! either such a value or one identifier in braces, `{cval}`. What is
//! worked out here is where the number ends and which suffix it carries;
//! turning the digits into a quantity is left to the caller.

use vstd::prelude::*;
use vstd::string::*;

verus! {

/// The power of ten that an engineering suffix stands for.
#[derive(Clone, Copy, Debug, PartialEq, Eq, Structural)]
pub enum Scale {
    /// No suffix.
    Unity,
    /// `k`, 1e3.
    Kilo,
    /// `m`, 1e-3.
    Milli,
    /// `u`, 1e-6.
    Micro,
    /// `n`, 1e-9.
    Nano,
    /// `p`, 1e-12.
    Pico,
}

/// A value as it stands in the text: its digits and its suffix.
#[derive(Clone, Debug, PartialEq, Eq)]
pub struct Number {
    /// The number as written, without its suffix.
    pub text: String,
    /// What the suffix stands for.
    pub scale: Scale,
}

/// A bracket expression.
#[derive(Clone, Debug, PartialEq, Eq)]
pub enum Expression {
    Literal(Number),
    Identifier(String),
}

/// How far the reading of a value has come.
#[derive(Clone, Copy, Debug, PartialEq, Eq, Structural)]
pub enum Lex {
    /// Nothing read yet.
    Start,
    /// After the sign of the number; no digit yet.
    Sign,
    /// In the integer part, after a digit.
    Int,
    /// After a sign and a point; no digit yet.
    Point,
    /// In the fraction, with a digit before or after the point.
    Frac,
    /// Just after the `e` of the exponent.
    ExpStart,
    /// After the sign of the exponent; no digit yet.
    ExpSign,
    /// In the exponent, after a digit.
    Exp,
    /// After the engineering suffix.
    Unit,
}

/// A decimal digit.
pub open spec fn is_digit(c: char) -> bool {
    '0' <= c <= '9'
}

/// A plus or minus sign.
pub open spec fn is_sign(c: char) -> bool {
    c == '+' || c == '-'
}

/// What an engineering suffix stands for.
pub open spec fn scale_of(c: char) -> Option<Scale> {
    if c == 'k' {
        Some(Scale::Kilo)
    } else if c == 'm' {
        Some(Scale::Milli)
    } else if c == 'u' {
        Some(Scale::Micro)
    } else if c == 'n' {
        Some(Scale::Nano)
    } else if c == 'p' {
        Some(Scale::Pico)
    } else {
        None
    }
}

/// The state after reading `c` in state `s`, or nothing if `c` does not
/// belong to the value any more.
pub open spec fn advance(s: Lex, c: char) -> Option<Lex> {
    match s {
        Lex::Start => if is_sign(c) {
            Some(Lex::Sign)
        } else if is_digit(c) {
            Some(Lex::Int)
        } else {
            None
        },
        Lex::Sign => if is_digit(c) {
            Some(Lex::Int)
        } else if c == '.' {
            Some(Lex::Point)
        } else {
            None
        },
        Lex::Point => if is_digit(c) {
            Some(Lex::Frac)
        } else {
            None
        },
        Lex::Int => if is_digit(c) {
            Some(Lex::Int)
        } else if c == '.' {
            Some(Lex::Frac)
        } else if c == 'e' {
            Some(Lex::ExpStart)
        } else if scale_of(c) is Some {
            Some(Lex::Unit)
        } else {
            None
        },
        Lex::Frac => if is_digit(c) {
            Some(Lex::Frac)
        } else if c == 'e' {
            Some(Lex::ExpStart)
        } else if scale_of(c) is Some {
            Some(Lex::Unit)
        } else {
            None
        },
        Lex::ExpStart => if is_sign(c) {
            Some(Lex::ExpSign)
        } else if is_digit(c) {
            Some(Lex::Exp)
        } else {
            None
        },
        Lex::ExpSign => if is_digit(c) {
            Some(Lex::Exp)
        } else {
            None
        },
        Lex::Exp => if is_digit(c) {
            Some(Lex::Exp)
        } else {
            None
        },
        Lex::Unit => None,
    }
}

/// Where the reading of a value stops, and in which state, when it stands
/// at position `i` in state `s`.
pub open spec fn scan_from(text: Seq<char>, i: int, s: Lex) -> (int, Lex)
    decreases text.len() - i,
{
    if i < 0 || i >= text.len() {
        (i, s)
    } else {
        match advance(s, text[i]) {
            None => (i, s),
            Some(t) => scan_from(text, i + 1, t),
        }
    }
}

/// The value at the head of a text: the digits and the scale, if the reading
/// stops in a state in which a number is complete.
pub open spec fn value_of(text: Seq<char>) -> Option<(Seq<char>, Scale)> {
    let (n, s) = scan_from(text, 0, Lex::Start);
    match s {
        Lex::Unit => Some((text.subrange(0, n - 1), scale_of(text[n - 1]).unwrap())),
        Lex::Int | Lex::Frac | Lex::Exp => Some((text.subrange(0, n), Scale::Unity)),
        _ => None,
    }
}

/// There is a digit among the first `i` characters of the text.
pub open spec fn digit_before(text: Seq<char>, i: int) -> bool {
    exists|j: int| 0 <= j < i && is_digit(#[trigger] text[j])
}

/// What holds of the characters read when the reading stands at position
/// `i` in state `s`: once a number is complete, a digit has been read and
/// the number ends in a digit or in the point after its digits.
pub open spec fn read_so_far(text: Seq<char>, i: int, s: Lex) -> bool {
    match s {
        Lex::Int | Lex::Frac | Lex::Exp => {
            &&& 1 <= i <= text.len()
            &&& digit_before(text, i)
            &&& is_digit(text[i - 1]) || text[i - 1] == '.'
        },
        Lex::Unit => {
            &&& 2 <= i <= text.len()
            &&& digit_before(text, i - 1)
            &&& is_digit(text[i - 2]) || text[i - 2] == '.'
        },
        _ => 0 <= i <= text.len(),
    }
}

/// Reading on keeps what holds of the characters read.
proof fn lemma_reading(text: Seq<char>, i: int, s: Lex)
    requires
        read_so_far(text, i, s),
    ensures
        read_so_far(text, scan_from(text, i, s).0, scan_from(text, i, s).1),
    decreases text.len() - i,
{
    if 0 <= i < text.len() {
        match advance(s, text[i]) {
            None => {},
            Some(t) => {
                if digit_before(text, i) {
                    let j = choose|j: int| 0 <= j < i && is_digit(#[trigger] text[j]);
                    assert(0 <= j < i + 1 && is_digit(text[j]));
                }
                if is_digit(text[i]) {
                    assert(0 <= i < i + 1 && is_digit(text[i]));
                }
                assert(read_so_far(text, i + 1, t));
                lemma_reading(text, i + 1, t);
            },
        }
    }
}

/// A value has digits: the number found at the head of a text holds at
/// least one digit and ends in a digit or in the point after its digits. A
/// lone sign, a lone point, or an exponent without digits is never taken
/// for a value.
pub proof fn lemma_value_has_digits(text: Seq<char>)
    ensures
        value_of(text) matches Some((digits, _)) ==> {
            &&& digits.len() >= 1
            &&& digit_before(digits, digits.len() as int)
            &&& is_digit(digits.last()) || digits.last() == '.'
        },
{
    lemma_reading(text, 0, Lex::Start);
    let (n, s) = scan_from(text, 0, Lex::Start);
    match value_of(text) {
        Some((digits, _)) => {
            let end = digits.len() as int;
            let j = choose|j: int| 0 <= j < end && is_digit(#[trigger] text[j]);
            assert(digits[j] == text[j]);
        },
        None => {},
    }
}

/// White space, as Unicode defines it.
pub open spec fn is_space(c: char) -> bool {
    let u = c as u32;
    (0x09 <= u <= 0x0D) || u == 0x20 || u == 0x85 || u == 0xA0 || u == 0x1680 || (0x2000 <= u
        <= 0x200A) || u == 0x2028 || u == 0x2029 || u == 0x202F || u == 0x205F || u == 0x3000
}

/// A letter or digit of ASCII.
pub open spec fn is_alphanumeric(c: char) -> bool {
    ('0' <= c <= '9') || ('a' <= c <= 'z') || ('A' <= c <= 'Z')
}

/// The first position from `i` on whose character does not satisfy `keep`,
/// or the length of the text.
pub open spec fn skip(text: Seq<char>, i: int, keep: spec_fn(char) -> bool) -> int
    decreases text.len() - i,
{
    if i < 0 || i >= text.len() || !keep(text[i]) {
        i
    } else {
        skip(text, i + 1, keep)
    }
}

/// The identifier of a braced expression `{ ident }`: white space may
/// surround the identifier, which is made of letters and digits and may be
/// empty, and the closing brace must follow.
pub open spec fn braced_identifier(text: Seq<char>) -> Option<Seq<char>> {
    let from = skip(text, 1, |c: char| is_space(c));
    let to = skip(text, from, |c: char| is_alphanumeric(c));
    let close = skip(text, to, |c: char| is_space(c));
    if close < text.len() && text[close] == '}' {
        Some(text.subrange(from, to))
    } else {
        None
    }
}

/// Extracts an element identifier from a piece of netlist text: the whole
/// text is the identifier.
pub fn extract_identifier(text: &str) -> (ident: String)
    ensures
        ident@ == text@,
{
    text.to_owned()
}

/// Tells whether `c` is white space.
pub fn is_whitespace(c: char) -> (b: bool)
    ensures
        b == is_space(c),
{
    let u = c as u32;
    (0x09 <= u && u <= 0x0D) || u == 0x20 || u == 0x85 || u == 0xA0 || u == 0x1680 || (0x2000 <= u
        && u <= 0x200A) || u == 0x2028 || u == 0x2029 || u == 0x202F || u == 0x205F || u == 0x3000
}

/// Tells whether `c` is a letter or digit of ASCII.
pub fn is_ascii_alphanumeric(c: char) -> (b: bool)
    ensures
        b == is_alphanumeric(c),
{
    ('0' <= c && c <= '9') || ('a' <= c && c <= 'z') || ('A' <= c && c <= 'Z')
}

/// The scale of a suffix character.
fn suffix(c: char) -> (s: Option<Scale>)
    ensures
        s == scale_of(c),
{
    if c == 'k' {
        Some(Scale::Kilo)
    } else if c == 'm' {
        Some(Scale::Milli)
    } else if c == 'u' {
        Some(Scale::Micro)
    } else if c == 'n' {
        Some(Scale::Nano)
    } else if c == 'p' {
        Some(Scale::Pico)
    } else {
        None
    }
}

/// One step of reading a value.
fn step(s: Lex, c: char) -> (t: Option<Lex>)
    ensures
        t == advance(s, c),
{
    let digit = '0' <= c && c <= '9';
    let sign = c == '+' || c == '-';
    match s {
        Lex::Start => if sign {
            Some(Lex::Sign)
        } else if digit {
            Some(Lex::Int)
        } else {
            None
        },
        Lex::Sign => if digit {
            Some(Lex::Int)
        } else if c == '.' {
            Some(Lex::Point)
        } else {
            None
        },
        Lex::Point => if digit {
            Some(Lex::Frac)
        } else {
            None
        },
        Lex::Int => if digit {
            Some(Lex::Int)
        } else if c == '.' {
            Some(Lex::Frac)
        } else if c == 'e' {
            Some(Lex::ExpStart)
        } else if suffix(c).is_some() {
            Some(Lex::Unit)
        } else {
            None
        },
        Lex::Frac => if digit {
            Some(Lex::Frac)
        } else if c == 'e' {
            Some(Lex::ExpStart)
        } else if suffix(c).is_some() {
            Some(Lex::Unit)
        } else {
            None
        },
        Lex::ExpStart => if sign {
            Some(Lex::ExpSign)
        } else if digit {
            Some(Lex::Exp)
        } else {
            None
        },
        Lex::ExpSign => if digit {
            Some(Lex::Exp)
        } else {
            None
        },
        Lex::Exp => if digit {
            Some(Lex::Exp)
        } else {
            None
        },
        Lex::Unit => None,
    }
}

/// Extracts a value, possibly in engineering notation, from the head of a
/// piece of text.
///
/// The value is an optional sign, digits with an optional point among or
/// after them, and an optional exponent, or such a number without exponent
/// followed by one of the suffixes `k`, `m`, `u`, `n`, `p`. Whatever follows
/// is ignored. There is no value if the text does not start with a sign or
/// digit, if no digit has come by the time the number ends, or if the
/// number breaks off in an exponent that has no digit: a lone sign is no
/// value, nor is `1e-`.
pub fn extract_value(text: &str) -> (value: Option<Number>)
    ensures
        match value {
            Some(number) => value_of(text@) == Some((number.text@, number.scale)),
            None => value_of(text@) is None,
        },
{
    let n = text.unicode_len();
    let mut state = Lex::Start;
    let mut i: usize = 0;
    loop
        invariant_except_break
            scan_from(text@, 0, Lex::Start) == scan_from(text@, i as int, state),
        invariant
            i <= n,
            n == text@.len(),
            state is Unit ==> i >= 1 && scale_of(text@[i - 1]) is Some,
        ensures
            scan_from(text@, 0, Lex::Start) == (i as int, state),
        decreases n - i,
    {
        if i >= n {
            break;
        }
        match step(state, text.get_char(i)) {
            None => {
                break;
            },
            Some(next) => {
                state = next;
                i = i + 1;
            },
        }
    }
    match state {
        Lex::Unit => {
            let scale = match suffix(text.get_char(i - 1)) {
                Some(scale) => scale,
                None => Scale::Unity,
            };
            Some(Number { text: text.substring_char(0, i - 1).to_owned(), scale })
        },
        Lex::Int | Lex::Frac | Lex::Exp => Some(
            Number { text: text.substring_char(0, i).to_owned(), scale: Scale::Unity },
        ),
        _ => None,
    }
}

/// The first position from `i` on that holds no white space.
fn skip_spaces(text: &str, i: usize) -> (j: usize)
    requires
        i <= text@.len(),
    ensures
        j == skip(text@, i as int, |c: char| is_space(c)),
        i <= j <= text@.len(),
{
    let n = text.unicode_len();
    let mut j = i;
    while j < n && is_whitespace(text.get_char(j))
        invariant
            i <= j <= n,
            n == text@.len(),
            skip(text@, i as int, |c: char| is_space(c)) == skip(
                text@,
                j as int,
                |c: char| is_space(c),
            ),
        decreases n - j,
    {
        j = j + 1;
    }
    j
}

/// The first position from `i` on that holds no letter or digit.
fn skip_alphanumerics(text: &str, i: usize) -> (j: usize)
    requires
        i <= text@.len(),
    ensures
        j == skip(text@, i as int, |c: char| is_alphanumeric(c)),
        i <= j <= text@.len(),
{
    let n = text.unicode_len();
    let mut j = i;
    while j < n && is_ascii_alphanumeric(text.get_char(j))
        invariant
            i <= j <= n,
            n == text@.len(),
            skip(text@, i as int, |c: char| is_alphanumeric(c)) == skip(
                text@,
                j as int,
                |c: char| is_alphanumeric(c),
            ),
        decreases n - j,
    {
        j = j + 1;
    }
    j
}

/// Extracts a bracket expression.
///
/// A text that does not start with an opening brace is a literal, if a
/// value stands at its head. A text that starts with an opening brace is an
/// identifier in braces. Anything else is no expression.
pub fn extract_expression(text: &str) -> (expr: Option<Expression>)
    ensures
        match expr {
            Some(Expression::Literal(number)) => {
                &&& !(text@.len() > 0 && text@[0] == '{')
                &&& value_of(text@) == Some((number.text@, number.scale))
            },
            Some(Expression::Identifier(ident)) => {
                &&& text@.len() > 0 && text@[0] == '{'
                &&& braced_identifier(text@) == Some(ident@)
            },
            None => if text@.len() > 0 && text@[0] == '{' {
                braced_identifier(text@) is None
            } else {
                value_of(text@) is None
            },
        },
{
    let n = text.unicode_len();
    if n == 0 || text.get_char(0) != '{' {
        return match extract_value(text) {
            Some(number) => Some(Expression::Literal(number)),
            None => None,
        };
    }
    let from = skip_spaces(text, 1);
    let to = skip_alphanumerics(text, from);
    let close = skip_spaces(text, to);
    if close < n && text.get_char(close) == '}' {
        Some(Expression::Identifier(text.substring_char(from, to).to_owned()))
    } else {
        None
    }
}

} // verus!
