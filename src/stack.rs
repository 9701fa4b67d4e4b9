use vstd::prelude::*;

use crate::number::{combine_fault, combine_spec, Combined, FloatJob, NumberType, Operator};
use crate::token::{classify, invalid_single, classified, Token};

verus! {

/// Why an evaluation stopped.
#[derive(Debug, PartialEq, Eq)]
pub enum EvalError {
    /// The token looked numeric but did not parse as the implied type.
    Parse(String),
    /// A one-character token that is neither an operator nor a digit.
    InvalidToken(String),
    /// An item was needed from an empty stack.
    StackUnderflow,
    /// An operator found a non-number where it needed an operand.
    TypeMismatch,
}

impl EvalError {
    /// A parse error on `token`.
    pub open spec fn is_parse_error(self, token: Seq<char>) -> bool {
        match self {
            EvalError::Parse(t) => t@ == token,
            _ => false,
        }
    }

    /// An invalid-token error on `token`.
    pub open spec fn is_invalid_token(self, token: Seq<char>) -> bool {
        match self {
            EvalError::InvalidToken(t) => t@ == token,
            _ => false,
        }
    }
}

/// An entry of the evaluation stack.
#[derive(Clone, Copy, Debug, PartialEq, Eq, Structural)]
pub enum StackItem {
    Num(NumberType),
    Op(Operator),
}

/// The evaluation stack; its tail is its top.
#[derive(Debug)]
pub struct Stack {
    pub stack: Vec<StackItem>,
}

impl View for Stack {
    type V = Seq<StackItem>;

    open spec fn view(&self) -> Seq<StackItem> {
        self.stack@
    }
}

/// How one reduction attempt, or a whole reduction pass, ended well: either
/// nothing is pending, or the operator fired on a float operand and the
/// caller owes the stack the result of the job, as a `Float`.
pub type Pending = Option<FloatJob>;

/// One attempt of operator kind `k` on stack `s`: the top is popped; if it is
/// `k`, its two operands below it are combined, else it is put back.
pub open spec fn attempt_spec(s: Seq<StackItem>, k: Operator) -> Result<
    (Seq<StackItem>, Pending),
    EvalError,
> {
    if s.len() == 0 {
        Err(EvalError::StackUnderflow)
    } else if s.last() != StackItem::Op(k) {
        Ok((s, None))
    } else {
        let s1 = s.drop_last();
        if s1.len() == 0 {
            Err(EvalError::StackUnderflow)
        } else if !(s1.last() is Num) {
            Err(EvalError::TypeMismatch)
        } else {
            let s2 = s1.drop_last();
            if s2.len() == 0 {
                Err(EvalError::StackUnderflow)
            } else if !(s2.last() is Num) {
                Err(EvalError::TypeMismatch)
            } else {
                let rest = s2.drop_last();
                match combine_spec(k, s2.last()->Num_0, s1.last()->Num_0) {
                    Combined::Exact(n) => Ok((rest.push(StackItem::Num(n)), None)),
                    Combined::Float(job) => Ok((rest, Some(job))),
                }
            }
        }
    }
}

/// The attempt of kind `k` would meet an integer fault.
pub open spec fn attempt_faults(s: Seq<StackItem>, k: Operator) -> bool {
    s.len() >= 3 && s.last() == StackItem::Op(k) && s[s.len() - 2] is Num && s[s.len() - 3] is Num
        && combine_fault(k, s[s.len() - 3]->Num_0, s[s.len() - 2]->Num_0)
}

/// Chains an attempt after a result: errors and pending jobs stop the chain.
pub open spec fn then_attempt(
    r: Result<(Seq<StackItem>, Pending), EvalError>,
    k: Operator,
) -> Result<(Seq<StackItem>, Pending), EvalError> {
    match r {
        Ok((s, None)) => attempt_spec(s, k),
        _ => r,
    }
}

/// A reduction pass: the attempts of Add, Subtract, Multiply and Divide, in
/// that order.
pub open spec fn reduce_spec(s: Seq<StackItem>) -> Result<(Seq<StackItem>, Pending), EvalError> {
    then_attempt(
        then_attempt(then_attempt(attempt_spec(s, Operator::Add), Operator::Subtract), Operator::Multiply),
        Operator::Divide,
    )
}

/// The pass on `s` would meet an integer fault.
pub open spec fn reduce_faults(s: Seq<StackItem>) -> bool {
    s.len() > 0 && s.last() is Op && attempt_faults(s, s.last()->Op_0)
}

impl Stack {
    /// An empty stack.
    pub fn new() -> (r: Stack)
        ensures
            r@ == Seq::<StackItem>::empty(),
    {
        Stack { stack: Vec::new() }
    }

    /// Appends `item` at the top.
    pub fn push(&mut self, item: StackItem)
        ensures
            final(self)@ == old(self)@.push(item),
    {
        self.stack.push(item);
    }

    /// Removes and returns the top item.
    pub fn pop(&mut self) -> (r: Result<StackItem, EvalError>)
        ensures
            old(self)@.len() == 0 ==> r == Err::<StackItem, EvalError>(EvalError::StackUnderflow)
                && final(self)@ == old(self)@,
            old(self)@.len() > 0 ==> r == Ok::<StackItem, EvalError>(old(self)@.last())
                && final(self)@ == old(self)@.drop_last(),
    {
        match self.stack.pop() {
            Some(item) => Ok(item),
            None => Err(EvalError::StackUnderflow),
        }
    }

    /// Classifies the token `item` and pushes it when it stands for an
    /// operator or an integer. A float literal is handed back unpushed: the
    /// caller reads it and pushes the `Float`.
    pub fn add_item(&mut self, item: &str) -> (r: Result<Token, EvalError>)
        ensures
            invalid_single(item@) ==> r is Err && r->Err_0.is_invalid_token(item@),
            !invalid_single(item@) ==> match classified(item@) {
                Some(t) => r == Ok::<Token, EvalError>(t),
                None => r is Err && r->Err_0.is_parse_error(item@),
            },
            match r {
                Ok(Token::Item(it)) => final(self)@ == old(self)@.push(it),
                _ => final(self)@ == old(self)@,
            },
    {
        let t = classify(item)?;
        match t {
            Token::Item(it) => self.push(it),
            Token::FloatLiteral => {},
        }
        Ok(t)
    }

    /// The items, bottom first.
    pub fn items(&self) -> (r: &Vec<StackItem>)
        ensures
            r@ == self@,
    {
        &self.stack
    }

    /// Tells whether the next reduction pass would meet an integer fault.
    pub fn reduction_faults(&self) -> (r: bool)
        ensures
            r == reduce_faults(self@),
    {
        let n = self.stack.len();
        if n < 3 {
            return false;
        }
        match (self.stack[n - 1], self.stack[n - 2], self.stack[n - 3]) {
            (StackItem::Op(k), StackItem::Num(b), StackItem::Num(a)) => a.faults_with(b, k),
            _ => false,
        }
    }

    /// One reduction attempt of operator kind `token`.
    pub fn op_run(&mut self, token: Operator) -> (r: Result<Pending, EvalError>)
        requires
            !attempt_faults(old(self)@, token),
        ensures
            match attempt_spec(old(self)@, token) {
                Ok((s, p)) => r == Ok::<Pending, EvalError>(p) && final(self)@ == s,
                Err(e) => r == Err::<Pending, EvalError>(e),
            },
    {
        let top = self.pop()?;
        match top {
            StackItem::Op(op) if op == token => {
                let snd = match self.pop()? {
                    StackItem::Num(num) => num,
                    _ => {
                        return Err(EvalError::TypeMismatch);
                    },
                };
                let fst = match self.pop()? {
                    StackItem::Num(num) => num,
                    _ => {
                        return Err(EvalError::TypeMismatch);
                    },
                };
                match fst.run_proc(snd, token) {
                    Combined::Exact(n) => {
                        self.push(StackItem::Num(n));
                        Ok(None)
                    },
                    Combined::Float(job) => Ok(Some(job)),
                }
            },
            _ => {
                self.push(top);
                Ok(None)
            },
        }
    }

    /// The reduction pass that follows every push: one attempt per operator
    /// kind, Add, Subtract, Multiply, Divide, stopping at the first error or
    /// at a float job for the caller.
    pub fn reduce(&mut self) -> (r: Result<Pending, EvalError>)
        requires
            !reduce_faults(old(self)@),
        ensures
            match reduce_spec(old(self)@) {
                Ok((s, p)) => r == Ok::<Pending, EvalError>(p) && final(self)@ == s,
                Err(e) => r == Err::<Pending, EvalError>(e),
            },
    {
        let p = self.op_run(Operator::Add)?;
        if p.is_some() {
            return Ok(p);
        }
        let p = self.op_run(Operator::Subtract)?;
        if p.is_some() {
            return Ok(p);
        }
        let p = self.op_run(Operator::Multiply)?;
        if p.is_some() {
            return Ok(p);
        }
        self.op_run(Operator::Divide)
    }
}

} // verus!
