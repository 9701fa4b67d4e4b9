use vstd::prelude::*;

use crate::number::{int_fault, int_result, FloatJob, NumberType, Operator};
use crate::stack::{attempt_spec, reduce_spec, EvalError, StackItem};
use crate::text::{decimal_text, digit_char, digits_of};
use crate::token::{
    all_digits, classified, digits_value, integer_value, invalid_single, is_digit, operator_of,
    parse_i64_spec, Token,
};

verus! {

/// The stack entry for the integer `i`.
pub open spec fn int_item(i: i64) -> StackItem {
    StackItem::Num(NumberType::Integer(i))
}

/// Every entry of `s` is a number.
pub open spec fn all_numbers(s: Seq<StackItem>) -> bool {
    forall|k: int| 0 <= k < s.len() ==> #[trigger] s[k] is Num
}

/// A pass over a stack whose top is a number leaves it as it is.
pub proof fn lemma_number_on_top_is_kept(s: Seq<StackItem>)
    requires
        s.len() > 0,
        s.last() is Num,
    ensures
        reduce_spec(s) == Ok::<(Seq<StackItem>, Option<FloatJob>), EvalError>((s, None)),
{
}

/// Trying all four kinds in order is the same as one attempt of the kind
/// that sits on top: the other attempts change nothing and fail on nothing.
pub proof fn lemma_reduce_is_dispatch_on_top(s: Seq<StackItem>, k: Operator)
    requires
        s.len() > 0,
        s.last() == StackItem::Op(k),
    ensures
        reduce_spec(s) == attempt_spec(s, k),
{
}

/// Between tokens the stack holds numbers only: pushing an item on a stack
/// of numbers and reducing gives a stack of numbers, to which a pending float
/// result is then pushed.
pub proof fn lemma_numbers_only_between_tokens(s: Seq<StackItem>, item: StackItem)
    requires
        all_numbers(s),
    ensures
        match reduce_spec(s.push(item)) {
            Ok((t, _)) => all_numbers(t),
            Err(_) => true,
        },
{
    let s1 = s.push(item);
    assert(s1.drop_last() =~= s);
    if s.len() >= 2 {
        assert(s1.drop_last().drop_last().drop_last() =~= s.subrange(0, s.len() - 2));
    }
}

/// An operator with fewer than two numbers below it underflows.
pub proof fn lemma_operator_without_operands_underflows(s: Seq<StackItem>, k: Operator)
    requires
        all_numbers(s),
        s.len() < 2,
    ensures
        reduce_spec(s.push(StackItem::Op(k))) == Err::<(Seq<StackItem>, Option<FloatJob>), EvalError>(
            EvalError::StackUnderflow,
        ),
{
    let s1 = s.push(StackItem::Op(k));
    assert(s1.drop_last() =~= s);
    if s.len() == 1 {
        assert(s1.drop_last().drop_last().len() == 0);
    }
}

/// The one-letter token that names `op`.
pub open spec fn op_symbol(op: Operator) -> Seq<char> {
    match op {
        Operator::Add => seq!['a'],
        Operator::Subtract => seq!['s'],
        Operator::Multiply => seq!['m'],
        Operator::Divide => seq!['d'],
    }
}

/// Evaluating the tokens `i`, `j`, `op` one by one leaves the one integer
/// `i op j`, where no fault of the machine stands in the way; division
/// rounds toward zero.
pub proof fn lemma_integer_arithmetic(i: i64, j: i64, op: Operator)
    requires
        !int_fault(op, i as int, j as int),
    ensures
        classified(decimal_text(i as int)) == Some(Token::Item(int_item(i))),
        classified(decimal_text(j as int)) == Some(Token::Item(int_item(j))),
        !invalid_single(op_symbol(op)),
        classified(op_symbol(op)) == Some(Token::Item(StackItem::Op(op))),
        reduce_spec(seq![int_item(i)]) == Ok::<(Seq<StackItem>, Option<FloatJob>), EvalError>(
            (seq![int_item(i)], None),
        ),
        reduce_spec(seq![int_item(i), int_item(j)]) == Ok::<
            (Seq<StackItem>, Option<FloatJob>),
            EvalError,
        >((seq![int_item(i), int_item(j)], None)),
        reduce_spec(seq![int_item(i), int_item(j), StackItem::Op(op)]) == Ok::<
            (Seq<StackItem>, Option<FloatJob>),
            EvalError,
        >((seq![int_item(int_result(op, i as int, j as int) as i64)], None)),
{
    lemma_integer_text_round_trip(i);
    lemma_integer_text_round_trip(j);
    let s = seq![int_item(i), int_item(j), StackItem::Op(op)];
    assert(s.drop_last().drop_last().drop_last().push(
        int_item(int_result(op, i as int, j as int) as i64),
    ) =~= seq![int_item(int_result(op, i as int, j as int) as i64)]);
}

/// An integer meeting a float, on either side and for every operator, is
/// promoted: the operator fires as a float operation on the two operands in
/// the order they were pushed.
pub proof fn lemma_mixed_operands_promote(i: i64, f: u64, op: Operator)
    ensures
        reduce_spec(
            seq![int_item(i), StackItem::Num(NumberType::Float(f)), StackItem::Op(op)],
        ) == Ok::<(Seq<StackItem>, Option<FloatJob>), EvalError>(
            (
                Seq::<StackItem>::empty(),
                Some(FloatJob { op, lhs: NumberType::Integer(i), rhs: NumberType::Float(f) }),
            ),
        ),
        reduce_spec(
            seq![StackItem::Num(NumberType::Float(f)), int_item(i), StackItem::Op(op)],
        ) == Ok::<(Seq<StackItem>, Option<FloatJob>), EvalError>(
            (
                Seq::<StackItem>::empty(),
                Some(FloatJob { op, lhs: NumberType::Float(f), rhs: NumberType::Integer(i) }),
            ),
        ),
{
    let s = seq![int_item(i), StackItem::Num(NumberType::Float(f)), StackItem::Op(op)];
    let t = seq![StackItem::Num(NumberType::Float(f)), int_item(i), StackItem::Op(op)];
    assert(s.drop_last().drop_last().drop_last() =~= Seq::<StackItem>::empty());
    assert(t.drop_last().drop_last().drop_last() =~= Seq::<StackItem>::empty());
}

/// The digits of `n` are decimal digits, and they read back as `n`.
pub proof fn lemma_digits_read_back(n: nat)
    ensures
        all_digits(digits_of(n)),
        digits_value(digits_of(n)) == n,
    decreases n,
{
    assert(digit_char(n % 10) as int == n % 10 + '0' as int);
    if n < 10 {
        assert(digits_of(n).drop_last() =~= Seq::<char>::empty());
        assert(digits_value(Seq::<char>::empty()) == 0);
    } else {
        lemma_digits_read_back(n / 10);
        let d = digits_of(n);
        assert(d.drop_last() =~= digits_of(n / 10));
        assert(d.last() == digit_char(n % 10));
        assert(digits_value(d) == digits_value(digits_of(n / 10)) * 10 + n % 10);
        assert forall|k: int| 0 <= k < d.len() implies is_digit(#[trigger] d[k]) by {
            if k < d.len() - 1 {
                assert(d[k] == digits_of(n / 10)[k]);
            }
        }
    }
}

/// Classifying the canonical text of an integer gives that integer, whose
/// rendering is that text again.
pub proof fn lemma_integer_text_round_trip(i: i64)
    ensures
        !invalid_single(decimal_text(i as int)),
        classified(decimal_text(i as int)) == Some(Token::Item(int_item(i))),
{
    let s = decimal_text(i as int);
    let m: nat = if i < 0 { (-i) as nat } else { i as nat };
    lemma_digits_read_back(m);
    let d = digits_of(m);
    if i < 0 {
        assert(s.drop_first() =~= d);
        assert(s[0] == '-');
    } else {
        assert(s =~= d);
        assert(is_digit(s[0]));
    }
    assert(forall|k: int| 0 <= k < s.len() ==> s[k] == '-' || is_digit(#[trigger] s[k])) by {
        assert forall|k: int| 0 <= k < s.len() implies s[k] == '-' || is_digit(#[trigger] s[k]) by {
            if i < 0 && k > 0 {
                assert(s[k] == d[k - 1]);
            }
        }
    }
    assert(!s.contains('.'));
    assert(s != seq!['a'] && s != seq!['s'] && s != seq!['m'] && s != seq!['d']) by {
        if s.len() == 1 {
            assert(s[0] == '-' || is_digit(s[0]));
        }
    }
    assert(operator_of(s) is None);
    assert(integer_value(s) == Some(i as int));
    assert(parse_i64_spec(s) == Some(i));
}

} // verus!
