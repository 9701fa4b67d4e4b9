use rpn::number::{Combined, FloatJob, NumberType, Operator};
use rpn::stack::{EvalError, Stack, StackItem};
use rpn::text::{chars_of, render_integer};
use rpn::token::{classify, parse_i64, Token};

fn as_f64(n: NumberType) -> f64 {
    match n {
        NumberType::Integer(i) => i as f64,
        NumberType::Float(bits) => f64::from_bits(bits),
    }
}

fn float_result(job: FloatJob) -> NumberType {
    let (a, b) = (as_f64(job.lhs), as_f64(job.rhs));
    let r = match job.op {
        Operator::Add => a + b,
        Operator::Subtract => a - b,
        Operator::Multiply => a * b,
        Operator::Divide => a / b,
    };
    NumberType::Float(r.to_bits())
}

fn feed(stack: &mut Stack, token: &str) -> Result<(), EvalError> {
    if let Token::FloatLiteral = stack.add_item(token)? {
        let f: f64 = token.parse().map_err(|_| EvalError::Parse(token.to_string()))?;
        stack.push(StackItem::Num(NumberType::Float(f.to_bits())));
    }
    assert!(!stack.reduction_faults());
    if let Some(job) = stack.reduce()? {
        stack.push(StackItem::Num(float_result(job)));
    }
    Ok(())
}

fn run(tokens: &[&str]) -> Result<Stack, EvalError> {
    let mut stack = Stack::new();
    for t in tokens {
        feed(&mut stack, t)?;
    }
    Ok(stack)
}

fn render(stack: &Stack) -> String {
    let parts: Vec<String> = stack
        .items()
        .iter()
        .map(|item| match item {
            StackItem::Num(NumberType::Integer(i)) => render_integer(*i),
            StackItem::Num(NumberType::Float(bits)) => format!("{}", f64::from_bits(*bits)),
            StackItem::Op(_) => String::new(),
        })
        .collect();
    parts.join(" ")
}

fn output(tokens: &[&str]) -> String {
    render(&run(tokens).unwrap())
}

fn int_num(i: i64) -> StackItem {
    StackItem::Num(NumberType::Integer(i))
}

#[test]
fn lone_operator_underflows() {
    assert_eq!(run(&["a"]).unwrap_err(), EvalError::StackUnderflow);
}

#[test]
fn operator_with_one_operand_underflows() {
    assert_eq!(run(&["1", "a"]).unwrap_err(), EvalError::StackUnderflow);
    assert_eq!(run(&["2.5", "m"]).unwrap_err(), EvalError::StackUnderflow);
}

#[test]
fn unknown_single_character_is_invalid() {
    assert_eq!(run(&["x"]).unwrap_err(), EvalError::InvalidToken("x".to_string()));
    assert_eq!(run(&["+"]).unwrap_err(), EvalError::InvalidToken("+".to_string()));
    assert_eq!(run(&["."]).unwrap_err(), EvalError::InvalidToken(".".to_string()));
}

#[test]
fn malformed_numbers_fail_to_parse() {
    assert_eq!(run(&["1.2.3"]).unwrap_err(), EvalError::Parse("1.2.3".to_string()));
    assert_eq!(run(&["abc"]).unwrap_err(), EvalError::Parse("abc".to_string()));
    assert_eq!(run(&[""]).unwrap_err(), EvalError::Parse(String::new()));
    assert_eq!(run(&["1_0"]).unwrap_err(), EvalError::Parse("1_0".to_string()));
    assert_eq!(
        run(&["9223372036854775808"]).unwrap_err(),
        EvalError::Parse("9223372036854775808".to_string())
    );
}

#[test]
fn chained_additions() {
    assert_eq!(output(&["1", "2", "3", "a", "a"]), "6");
}

#[test]
fn integer_division_truncates() {
    assert_eq!(output(&["10", "4", "d"]), "2");
    assert_eq!(output(&["-7", "2", "d"]), "-3");
    assert_eq!(output(&["7", "-2", "d"]), "-3");
    assert_eq!(output(&["-7", "-2", "d"]), "3");
}

#[test]
fn float_operand_makes_division_exact() {
    assert_eq!(output(&["10", "4.0", "d"]), "2.5");
}

#[test]
fn integer_operators() {
    assert_eq!(output(&["3", "4", "a"]), "7");
    assert_eq!(output(&["3", "4", "s"]), "-1");
    assert_eq!(output(&["6", "7", "m"]), "42");
    assert_eq!(output(&["-9223372036854775808", "1", "a"]), "-9223372036854775807");
}

#[test]
fn mixed_operands_promote_on_either_side() {
    assert_eq!(output(&["1", "2.5", "a"]), "3.5");
    assert_eq!(output(&["2.5", "1", "a"]), "3.5");
    assert_eq!(output(&["2.5", "1", "s"]), "1.5");
    assert_eq!(output(&["1", "2.5", "s"]), "-1.5");
    assert_eq!(output(&["3", "0.5", "m"]), "1.5");
    assert_eq!(output(&["1.0", "4", "d"]), "0.25");
    let mut stack = Stack::new();
    stack.push(int_num(1));
    stack.push(StackItem::Num(NumberType::Float(2.5f64.to_bits())));
    stack.push(StackItem::Op(Operator::Add));
    let job = stack.reduce().unwrap().unwrap();
    assert_eq!(job.lhs, NumberType::Integer(1));
    assert_eq!(job.rhs, NumberType::Float(2.5f64.to_bits()));
    assert!(stack.items().is_empty());
}

#[test]
fn leftover_numbers_are_space_separated() {
    assert_eq!(output(&["1", "2", "3.5"]), "1 2 3.5");
}

#[test]
fn float_token_renders_as_written() {
    assert_eq!(classify("3.5").unwrap(), Token::FloatLiteral);
    let f: f64 = "3.5".parse().unwrap();
    assert_eq!(format!("{}", f), "3.5");
    assert_eq!(output(&["3.5"]), "3.5");
}

#[test]
fn integer_token_renders_as_written() {
    for text in ["0", "42", "-42", "9223372036854775807", "-9223372036854775808"] {
        let i = match classify(text).unwrap() {
            Token::Item(StackItem::Num(NumberType::Integer(i))) => i,
            other => panic!("unexpected {:?}", other),
        };
        assert_eq!(render_integer(i), text);
    }
}

#[test]
fn render_integer_digits() {
    assert_eq!(render_integer(1234), "1234");
    assert_eq!(render_integer(-5), "-5");
    assert_eq!(render_integer(i64::MIN), "-9223372036854775808");
}

#[test]
fn operator_symbols_classify() {
    assert_eq!(classify("a").unwrap(), Token::Item(StackItem::Op(Operator::Add)));
    assert_eq!(classify("s").unwrap(), Token::Item(StackItem::Op(Operator::Subtract)));
    assert_eq!(classify("m").unwrap(), Token::Item(StackItem::Op(Operator::Multiply)));
    assert_eq!(classify("d").unwrap(), Token::Item(StackItem::Op(Operator::Divide)));
    assert_eq!(classify("7").unwrap(), Token::Item(int_num(7)));
    assert_eq!(classify("ad").unwrap_err(), EvalError::Parse("ad".to_string()));
}

#[test]
fn parse_i64_forms() {
    assert_eq!(parse_i64("+5"), Some(5));
    assert_eq!(parse_i64("-0"), Some(0));
    assert_eq!(parse_i64("007"), Some(7));
    assert_eq!(parse_i64("-9223372036854775808"), Some(i64::MIN));
    assert_eq!(parse_i64("9223372036854775807"), Some(i64::MAX));
    assert_eq!(parse_i64("-9223372036854775809"), None);
    assert_eq!(parse_i64("--1"), None);
    assert_eq!(parse_i64("+"), None);
    assert_eq!(parse_i64("-"), None);
    assert_eq!(parse_i64(" 1"), None);
    assert_eq!(parse_i64("12a"), None);
}

#[test]
fn operator_on_operator_is_type_mismatch() {
    let mut stack = Stack::new();
    stack.push(int_num(1));
    stack.push(StackItem::Op(Operator::Subtract));
    stack.push(StackItem::Op(Operator::Add));
    assert_eq!(stack.reduce().unwrap_err(), EvalError::TypeMismatch);
    let mut stack = Stack::new();
    stack.push(StackItem::Op(Operator::Subtract));
    stack.push(int_num(1));
    stack.push(StackItem::Op(Operator::Add));
    assert_eq!(stack.reduce().unwrap_err(), EvalError::TypeMismatch);
}

#[test]
fn number_on_top_is_left_alone() {
    let mut stack = Stack::new();
    stack.push(StackItem::Op(Operator::Divide));
    stack.push(int_num(4));
    assert_eq!(stack.reduce().unwrap(), None);
    assert_eq!(stack.items().clone(), vec![StackItem::Op(Operator::Divide), int_num(4)]);
}

#[test]
fn empty_stack_reduce_underflows() {
    let mut stack = Stack::new();
    assert_eq!(stack.reduce().unwrap_err(), EvalError::StackUnderflow);
    assert_eq!(stack.pop().unwrap_err(), EvalError::StackUnderflow);
}

#[test]
fn single_attempt_of_other_kind_is_no_op() {
    let mut stack = Stack::new();
    stack.push(int_num(2));
    stack.push(int_num(3));
    stack.push(StackItem::Op(Operator::Multiply));
    assert_eq!(stack.op_run(Operator::Add).unwrap(), None);
    assert_eq!(stack.items().len(), 3);
    assert_eq!(stack.op_run(Operator::Multiply).unwrap(), None);
    assert_eq!(stack.items().clone(), vec![int_num(6)]);
}

#[test]
fn integer_faults_are_detected() {
    let mut stack = Stack::new();
    stack.push(int_num(1));
    stack.push(int_num(0));
    stack.push(StackItem::Op(Operator::Divide));
    assert!(stack.reduction_faults());
    let mut stack = Stack::new();
    stack.push(int_num(i64::MAX));
    stack.push(int_num(1));
    stack.push(StackItem::Op(Operator::Add));
    assert!(stack.reduction_faults());
    let mut stack = Stack::new();
    stack.push(int_num(i64::MIN));
    stack.push(int_num(-1));
    stack.push(StackItem::Op(Operator::Divide));
    assert!(stack.reduction_faults());
    let mut stack = Stack::new();
    stack.push(int_num(1));
    stack.push(int_num(2));
    stack.push(StackItem::Op(Operator::Add));
    assert!(!stack.reduction_faults());
}

#[test]
fn combine_follows_coercion() {
    let seven = NumberType::Integer(7);
    let two = NumberType::Integer(2);
    assert_eq!(seven.run_proc(two, Operator::Divide), Combined::Exact(NumberType::Integer(3)));
    assert_eq!(seven.run_proc(two, Operator::Subtract), Combined::Exact(NumberType::Integer(5)));
    let half = NumberType::Float(0.5f64.to_bits());
    assert_eq!(
        seven.run_proc(half, Operator::Multiply),
        Combined::Float(FloatJob { op: Operator::Multiply, lhs: seven, rhs: half })
    );
    assert!(seven.faults_with(NumberType::Integer(0), Operator::Divide));
    assert!(!half.faults_with(NumberType::Integer(0), Operator::Divide));
}

#[test]
fn float_division_by_zero_is_infinite() {
    assert_eq!(output(&["1", "0.0", "d"]), "inf");
}

#[test]
fn chars_of_keeps_order() {
    assert_eq!(chars_of("a1é"), vec!['a', '1', 'é']);
}
