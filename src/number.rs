use vstd::prelude::*;

verus! {

/// One of the four arithmetic operators that a token can name.
#[derive(Clone, Copy, Debug, PartialEq, Eq, Structural)]
pub enum Operator {
    Add,
    Subtract,
    Multiply,
    Divide,
}

/// A numeric value: a 64-bit signed integer, or a 64-bit IEEE-754 float held
/// as its bit pattern. Float arithmetic, parsing and rendering are done by the
/// caller on that pattern; this library decides when they happen and on what.
#[derive(Clone, Copy, Debug, PartialEq, Eq, Structural)]
pub enum NumberType {
    Integer(i64),
    Float(u64),
}

/// A float operation that the caller has to carry out: `lhs op rhs`, with an
/// integer operand first converted to a float. Its result is a `Float`.
#[derive(Clone, Copy, Debug, PartialEq, Eq, Structural)]
pub struct FloatJob {
    pub op: Operator,
    pub lhs: NumberType,
    pub rhs: NumberType,
}

/// What combining two numbers gives: an integer computed here, or a float
/// operation left to the caller.
#[derive(Clone, Copy, Debug, PartialEq, Eq, Structural)]
pub enum Combined {
    Exact(NumberType),
    Float(FloatJob),
}

/// Integer division that rounds toward zero.
pub open spec fn trunc_div(i: int, j: int) -> int {
    if i >= 0 {
        i / j
    } else {
        -((-i) / j)
    }
}

/// The exact value of `i op j` on mathematical integers.
pub open spec fn int_result(op: Operator, i: int, j: int) -> int {
    match op {
        Operator::Add => i + j,
        Operator::Subtract => i - j,
        Operator::Multiply => i * j,
        Operator::Divide => trunc_div(i, j),
    }
}

/// Combining two integers with `op` is a fault of the machine: a division by
/// zero, or a result that a 64-bit signed integer cannot hold.
pub open spec fn int_fault(op: Operator, i: int, j: int) -> bool {
    (op == Operator::Divide && j == 0) || int_result(op, i, j) < i64::MIN || int_result(op, i, j)
        > i64::MAX
}

/// Combining `a` and `b` with `op` is a fault of the machine (integers only).
pub open spec fn combine_fault(op: Operator, a: NumberType, b: NumberType) -> bool {
    match (a, b) {
        (NumberType::Integer(i), NumberType::Integer(j)) => int_fault(op, i as int, j as int),
        _ => false,
    }
}

/// The coercion rule: two integers give an integer, anything else a float.
pub open spec fn combine_spec(op: Operator, a: NumberType, b: NumberType) -> Combined {
    match (a, b) {
        (NumberType::Integer(i), NumberType::Integer(j)) => Combined::Exact(
            NumberType::Integer(int_result(op, i as int, j as int) as i64),
        ),
        _ => Combined::Float(FloatJob { op, lhs: a, rhs: b }),
    }
}

/// A quotient of 64-bit integers that rounds toward zero fits in 64 bits,
/// except for the minimum divided by -1, which negates.
proof fn lemma_trunc_div_bounds(i: int, j: int)
    requires
        j != 0,
        i64::MIN <= i <= i64::MAX,
    ensures
        j == -1 ==> trunc_div(i, j) == -i,
        j != -1 ==> i64::MIN <= trunc_div(i, j) <= i64::MAX,
{
    if i >= 0 {
        assert(j == -1 ==> i / j == -i) by (nonlinear_arith)
            requires i >= 0, j != 0;
        assert(j != -1 ==> -i <= i / j <= i) by (nonlinear_arith)
            requires i >= 0, j != 0;
    } else {
        let a = -i;
        assert(j == -1 ==> a / j == -a) by (nonlinear_arith)
            requires a > 0, j != 0;
        assert(j > 0 ==> 0 <= a / j <= a) by (nonlinear_arith)
            requires a > 0, j != 0;
        assert(j < -1 ==> -a / 2 <= a / j <= 0) by (nonlinear_arith)
            requires a > 0, j != 0;
    }
}

impl NumberType {
    /// Combines `self` (left operand) with `other` (right operand) by `op`.
    pub fn run_proc(self, other: Self, op: Operator) -> (r: Combined)
        requires
            !combine_fault(op, self, other),
        ensures
            r == combine_spec(op, self, other),
    {
        match (self, other) {
            (NumberType::Integer(i), NumberType::Integer(j)) => {
                let v: i64 = match op {
                    Operator::Add => i + j,
                    Operator::Subtract => i - j,
                    Operator::Multiply => i * j,
                    Operator::Divide => i / j,
                };
                Combined::Exact(NumberType::Integer(v))
            },
            _ => Combined::Float(FloatJob { op, lhs: self, rhs: other }),
        }
    }

    /// Tells whether combining `self` with `other` by `op` would be a fault of
    /// the machine (integer division by zero or overflow).
    pub fn faults_with(self, other: Self, op: Operator) -> (r: bool)
        ensures
            r == combine_fault(op, self, other),
    {
        match (self, other) {
            (NumberType::Integer(i), NumberType::Integer(j)) => {
                match op {
                    Operator::Add => i.checked_add(j).is_none(),
                    Operator::Subtract => i.checked_sub(j).is_none(),
                    Operator::Multiply => i.checked_mul(j).is_none(),
                    Operator::Divide => {
                        proof {
                            if j != 0 {
                                lemma_trunc_div_bounds(i as int, j as int);
                            }
                        }
                        j == 0 || (i == i64::MIN && j == -1)
                    },
                }
            },
            _ => false,
        }
    }
}

} // verus!
