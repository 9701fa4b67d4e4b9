use vstd::prelude::*;

use crate::number::{NumberType, Operator};
use crate::stack::{EvalError, StackItem};
use crate::text::chars_of;

verus! {

/// The value of a non-empty run of ASCII decimal digits.
pub open spec fn digits_value(d: Seq<char>) -> int
    decreases d.len(),
{
    if d.len() == 0 {
        0
    } else {
        digits_value(d.drop_last()) * 10 + (d.last() as int - '0' as int)
    }
}

/// An ASCII decimal digit.
pub open spec fn is_digit(c: char) -> bool {
    '0' <= c <= '9'
}

/// One or more ASCII decimal digits and nothing else.
pub open spec fn all_digits(d: Seq<char>) -> bool {
    d.len() > 0 && forall|k: int| 0 <= k < d.len() ==> is_digit(#[trigger] d[k])
}

/// The integer that `s` writes: an optional `+` or `-`, then one or more
/// decimal digits, and nothing else.
pub open spec fn integer_value(s: Seq<char>) -> Option<int> {
    if s.len() > 0 && (s[0] == '-' || s[0] == '+') {
        if all_digits(s.drop_first()) {
            if s[0] == '-' {
                Some(-digits_value(s.drop_first()))
            } else {
                Some(digits_value(s.drop_first()))
            }
        } else {
            None
        }
    } else if all_digits(s) {
        Some(digits_value(s))
    } else {
        None
    }
}

/// The 64-bit integer that `s` writes, if it writes one in range.
pub open spec fn parse_i64_spec(s: Seq<char>) -> Option<i64> {
    match integer_value(s) {
        Some(v) => if i64::MIN <= v <= i64::MAX {
            Some(v as i64)
        } else {
            None
        },
        None => None,
    }
}

/// 2^63, the magnitude of the smallest 64-bit integer.
pub const MAGNITUDE_LIMIT: u128 = 0x8000_0000_0000_0000;

proof fn lemma_digits_value_nonneg(d: Seq<char>)
    requires
        forall|k: int| 0 <= k < d.len() ==> is_digit(#[trigger] d[k]),
    ensures
        digits_value(d) >= 0,
    decreases d.len(),
{
    if d.len() > 0 {
        lemma_digits_value_nonneg(d.drop_last());
    }
}

proof fn lemma_digits_value_nonneg_if_digits(d: Seq<char>)
    ensures
        all_digits(d) ==> digits_value(d) >= 0,
{
    if all_digits(d) {
        lemma_digits_value_nonneg(d);
    }
}

/// Parses the digits `d[start..]` into their value, or `None` when it is
/// larger than 2^63 or `d[start..]` holds no digit or anything but digits.
fn magnitude(d: &Vec<char>, start: usize) -> (r: Option<u128>)
    requires
        start <= d@.len(),
    ensures
        all_digits(d@.skip(start as int)) && digits_value(d@.skip(start as int))
            <= MAGNITUDE_LIMIT ==> r == Some(digits_value(d@.skip(start as int)) as u128),
        r is Some ==> all_digits(d@.skip(start as int)) && digits_value(d@.skip(start as int))
            <= MAGNITUDE_LIMIT,
{
    let ghost tail = d@.skip(start as int);
    if start == d.len() {
        return None;
    }
    let mut acc: u128 = 0;
    let mut over = false;
    let mut i: usize = start;
    while i < d.len()
        invariant
            start <= i <= d@.len(),
            tail == d@.skip(start as int),
            forall|k: int| start <= k < i ==> is_digit(#[trigger] d@[k]),
            !over ==> acc == digits_value(d@.subrange(start as int, i as int)),
            !over ==> acc <= MAGNITUDE_LIMIT,
            over ==> digits_value(d@.subrange(start as int, i as int)) > MAGNITUDE_LIMIT,
        decreases d@.len() - i,
    {
        let c = d[i];
        if !('0' <= c && c <= '9') {
            assert(tail[i - start] == c);
            return None;
        }
        let ghost prev = d@.subrange(start as int, i as int);
        let ghost next = d@.subrange(start as int, i + 1);
        assert(next.drop_last() =~= prev);
        let digit = (c as u32 - '0' as u32) as u128;
        proof {
            lemma_digits_value_nonneg(prev);
        }
        if !over {
            acc = acc * 10 + digit;
            if acc > MAGNITUDE_LIMIT {
                over = true;
            }
        } else {
            assert(digits_value(next) >= digits_value(prev)) by (nonlinear_arith)
                requires
                    digits_value(next) == digits_value(prev) * 10 + digit,
                    digits_value(prev) >= 0,
                    digit >= 0,
            ;
        }
        i = i + 1;
    }
    assert(d@.subrange(start as int, d@.len() as int) =~= tail);
    if over {
        None
    } else {
        Some(acc)
    }
}

/// Parses a 64-bit signed integer written in decimal, with an optional sign.
pub fn parse_i64(s: &str) -> (r: Option<i64>)
    ensures
        r == parse_i64_spec(s@),
{
    let d = chars_of(s);
    let signed = d.len() > 0 && (d[0] == '-' || d[0] == '+');
    let start: usize = if signed { 1 } else { 0 };
    assert(d@.skip(0) =~= d@);
    assert(signed ==> d@.skip(1) =~= d@.drop_first());
    proof {
        lemma_digits_value_nonneg_if_digits(d@.skip(start as int));
    }
    let m = match magnitude(&d, start) {
        Some(m) => m,
        None => {
            return None;
        },
    };
    if signed && d[0] == '-' {
        Some((0 - (m as i128)) as i64)
    } else if m < MAGNITUDE_LIMIT {
        Some(m as i64)
    } else {
        None
    }
}

/// What a token stands for, once classified.
#[derive(Clone, Copy, Debug, PartialEq, Eq, Structural)]
pub enum Token {
    /// An operator or an integer, ready to be pushed.
    Item(StackItem),
    /// A token holding a `.`: it is read as a float by the caller, and an
    /// unreadable one is a parse error.
    FloatLiteral,
}

/// The symbol that names an operator, if the token is one.
pub open spec fn operator_of(s: Seq<char>) -> Option<Operator> {
    if s =~= seq!['a'] {
        Some(Operator::Add)
    } else if s =~= seq!['s'] {
        Some(Operator::Subtract)
    } else if s =~= seq!['m'] {
        Some(Operator::Multiply)
    } else if s =~= seq!['d'] {
        Some(Operator::Divide)
    } else {
        None
    }
}

/// A token of one character that is neither an operator symbol nor a digit.
pub open spec fn invalid_single(s: Seq<char>) -> bool {
    s.len() == 1 && !(s[0] == 'a' || s[0] == 's' || s[0] == 'm' || s[0] == 'd' || is_digit(s[0]))
}

/// What a token that is not rejected outright stands for; `None` where it
/// fails to parse as an integer.
pub open spec fn classified(s: Seq<char>) -> Option<Token> {
    match operator_of(s) {
        Some(op) => Some(Token::Item(StackItem::Op(op))),
        None => if s.contains('.') {
            Some(Token::FloatLiteral)
        } else {
            match parse_i64_spec(s) {
                Some(i) => Some(Token::Item(StackItem::Num(NumberType::Integer(i)))),
                None => None,
            }
        },
    }
}

/// Classifies a raw token as an operator, an integer, or a float literal.
pub fn classify(token: &str) -> (r: Result<Token, EvalError>)
    ensures
        invalid_single(token@) ==> r is Err && r->Err_0.is_invalid_token(token@),
        !invalid_single(token@) ==> match classified(token@) {
            Some(t) => r == Ok::<Token, EvalError>(t),
            None => r is Err && r->Err_0.is_parse_error(token@),
        },
{
    let d = chars_of(token);
    if d.len() == 1 {
        let c = d[0];
        if !(c == 'a' || c == 's' || c == 'm' || c == 'd' || ('0' <= c && c <= '9')) {
            return Err(EvalError::InvalidToken(token.to_owned()));
        }
    }
    if d.len() == 1 {
        let c = d[0];
        let op = if c == 'a' {
            Some(Operator::Add)
        } else if c == 's' {
            Some(Operator::Subtract)
        } else if c == 'm' {
            Some(Operator::Multiply)
        } else if c == 'd' {
            Some(Operator::Divide)
        } else {
            None
        };
        match op {
            Some(op) => {
                return Ok(Token::Item(StackItem::Op(op)));
            },
            None => {},
        }
    }
    if d.len() == 1 {
        assert(d@ =~= seq![d@[0]]);
    }
    assert(operator_of(d@) is None);
    assert(!invalid_single(d@));
    let mut i: usize = 0;
    while i < d.len()
        invariant
            i <= d@.len(),
            d@ == token@,
            !invalid_single(d@),
            operator_of(d@) is None,
            forall|k: int| 0 <= k < i ==> d@[k] != '.',
        decreases d@.len() - i,
    {
        if d[i] == '.' {
            assert(d@[i as int] == '.');
            assert(d@.contains('.'));
            return Ok(Token::FloatLiteral);
        }
        i = i + 1;
    }
    assert(!d@.contains('.'));
    match parse_i64(token) {
        Some(v) => Ok(Token::Item(StackItem::Num(NumberType::Integer(v)))),
        None => Err(EvalError::Parse(token.to_owned())),
    }
}

} // verus!
