//! Expressions: numeric literals, binary operations on two literals,
//! variable references, and blocks.

use vstd::prelude::*;
use crate::binding_usage::BindingUsage;
use crate::block::Block;
use crate::env::Env;
use crate::model::digits_val;
use crate::model::lemma_digits_val_grows;
use crate::model::sp_number;
use crate::model::sp_operation;
use crate::model::sp_operator;
use crate::utils;
use crate::utils::digit_p;
use crate::utils::is_digit_char;
use crate::utils::lemma_prefix_len_bound;
use crate::utils::lemma_prefix_len_chars;
use crate::utils::prefix_len;
use crate::value::Value;

verus! {

broadcast use lemma_prefix_len_bound;

/// A signed 32-bit integer literal.
#[derive(Debug, Clone, Copy, PartialEq, Eq, Structural)]
pub struct Number(pub i32);

impl Number {
    /// One or more ASCII digits, read as a base-10 integer; a literal
    /// beyond the 32-bit range is a parse error.
    #[verifier::loop_isolation(false)]
    pub fn new(s: &str) -> (r: Result<(&str, Number), String>)
        ensures
            match (r, sp_number(s@)) {
                (Ok(p), Ok(q)) => p.0@ == q.0 && p.1.0 == q.1,
                (Err(m), Err(q)) => m@ == q,
                _ => false,
            },
    {
        match utils::extract_digits(s) {
            Err(m) => Err(m),
            Ok((rest, digits)) => {
                proof {
                    lemma_prefix_len_chars(s@, digit_p());
                    assert forall|j: int| 0 <= j < digits@.len() implies is_digit_char(
                        digits@[j],
                    ) by {
                        assert(digits@[j] == s@.take(prefix_len(s@, digit_p()) as int)[j]);
                        assert(digit_p()(s@[j]));
                    }
                }
                let dlen = digits.unicode_len();
                let mut v: u64 = 0;
                let mut k: usize = 0;
                while k < dlen
                    invariant
                        k <= dlen,
                        dlen == digits@.len(),
                        forall|j: int| 0 <= j < dlen ==> is_digit_char(digits@[j]),
                        v == digits_val(digits@.take(k as int)),
                        v <= 2147483647,
                    decreases dlen - k,
                {
                    let c = digits.get_char(k);
                    let d: u32 = (c as u32) - 48;
                    let w: u64 = v * 10 + (d as u64);
                    proof {
                        assert(digits@.take(k + 1).drop_last() =~= digits@.take(k as int));
                        assert(digits@.take(k + 1).last() == digits@[k as int]);
                    }
                    if w > 2147483647 {
                        proof {
                            lemma_digits_val_grows(digits@, k + 1);
                        }
                        return Err(String::from_str("number too large"));
                    }
                    v = w;
                    k = k + 1;
                }
                proof {
                    assert(digits@.take(dlen as int) =~= digits@);
                }
                Ok((rest, Number(v as i32)))
            },
        }
    }
}

/// One of the four arithmetic operators.
#[derive(Debug, Clone, Copy, PartialEq, Eq, Structural)]
pub enum Operator {
    Add,
    Sub,
    Mul,
    Div,
}

impl Operator {
    /// A single-character match against `+ - * /`, in that order.
    pub fn new(s: &str) -> (r: Result<(&str, Operator), String>)
        ensures
            match (r, sp_operator(s@)) {
                (Ok(p), Ok(q)) => p.0@ == q.0 && p.1 == q.1,
                (Err(m), Err(q)) => m@ == q,
                _ => false,
            },
    {
        match utils::extract_tag("+", s) {
            Ok(rest) => Ok((rest, Operator::Add)),
            Err(_) => match utils::extract_tag("-", s) {
                Ok(rest) => Ok((rest, Operator::Sub)),
                Err(_) => match utils::extract_tag("*", s) {
                    Ok(rest) => Ok((rest, Operator::Mul)),
                    Err(_) => match utils::extract_tag("/", s) {
                        Ok(rest) => Ok((rest, Operator::Div)),
                        Err(m) => Err(m),
                    },
                },
            },
        }
    }
}

/// A binary operation whose operands are numeric literals only; the
/// grammar does not nest operations.
#[derive(Debug, Clone, Copy, PartialEq, Eq, Structural)]
pub struct Operation {
    pub lhs: Number,
    pub rhs: Number,
    pub op: Operator,
}

impl Operation {
    /// `Number, whitespace*, Operator, whitespace*, Number`.
    pub fn new(s: &str) -> (r: Result<(&str, Operation), String>)
        ensures
            match (r, sp_operation(s@)) {
                (Ok(p), Ok(q)) => p.0@ == q.0 && p.1.lhs.0 == q.1.0 && p.1.rhs.0 == q.1.1
                    && p.1.op == q.1.2,
                (Err(m), Err(q)) => m@ == q,
                _ => false,
            },
    {
        let (s1, lhs) = match Number::new(s) {
            Ok(p) => p,
            Err(m) => {
                return Err(m);
            },
        };
        let (s2, _) = utils::extract_whitespaces(s1);
        let (s3, op) = match Operator::new(s2) {
            Ok(p) => p,
            Err(m) => {
                return Err(m);
            },
        };
        let (s4, _) = utils::extract_whitespaces(s3);
        let (s5, rhs) = match Number::new(s4) {
            Ok(p) => p,
            Err(m) => {
                return Err(m);
            },
        };
        Ok((s5, Operation { lhs, rhs, op }))
    }

    /// Apply the operator to the two literal operands; division by
    /// zero and results outside the 32-bit range are evaluation
    /// errors.
    pub fn eval(&self) -> (r: Result<Value, String>)
        ensures
            match (r, crate::model::sp_eval_op(self.op, self.lhs.0, self.rhs.0)) {
                (Ok(v), Ok(w)) => v == w,
                (Err(m), Err(q)) => m@ == q,
                _ => false,
            },
    {
        let Number(lhs) = self.lhs;
        let Number(rhs) = self.rhs;
        match self.op {
            Operator::Add => match lhs.checked_add(rhs) {
                Some(n) => Ok(Value::Number(n)),
                None => Err(String::from_str("numeric overflow")),
            },
            Operator::Sub => match lhs.checked_sub(rhs) {
                Some(n) => Ok(Value::Number(n)),
                None => Err(String::from_str("numeric overflow")),
            },
            Operator::Mul => match lhs.checked_mul(rhs) {
                Some(n) => Ok(Value::Number(n)),
                None => Err(String::from_str("numeric overflow")),
            },
            Operator::Div => if rhs == 0 {
                Err(String::from_str("division by zero"))
            } else {
                match lhs.checked_div(rhs) {
                    Some(n) => Ok(Value::Number(n)),
                    None => Err(String::from_str("numeric overflow")),
                }
            },
        }
    }
}

/// Any expression of the language.
#[derive(Debug, PartialEq)]
pub enum Expression {
    Number(Number),
    Operation { lhs: Number, rhs: Number, op: Operator },
    Block(Block),
    BindingUsage(BindingUsage),
}

impl Expression {
    /// The alternatives in priority order: Operation, Number,
    /// BindingUsage, Block; each attempt starts over from the same
    /// input, so a failed alternative consumes nothing.
    pub fn new(s: &str) -> (r: Result<(&str, Expression), String>)
        ensures
            match (r, crate::model::sp_expr(s@)) {
                (Ok(p), Ok(q)) => p.0@ == q.0 && p.1@ == q.1,
                (Err(m), Err(q)) => m@ == q,
                _ => false,
            },
        decreases s@.len(), 1int,
    {
        match Operation::new(s) {
            Ok((rest, operation)) => Ok(
                (
                    rest,
                    Expression::Operation {
                        lhs: operation.lhs,
                        rhs: operation.rhs,
                        op: operation.op,
                    },
                ),
            ),
            Err(_) => match Number::new(s) {
                Ok((rest, number)) => Ok((rest, Expression::Number(number))),
                Err(_) => match BindingUsage::new(s) {
                    Ok((rest, binding_usage)) => Ok(
                        (rest, Expression::BindingUsage(binding_usage)),
                    ),
                    Err(_) => match Block::new(s) {
                        Ok((rest, block)) => Ok((rest, Expression::Block(block))),
                        Err(m) => Err(m),
                    },
                },
            },
        }
    }

    /// The value of the expression in the given environment; the
    /// environment itself is left untouched.
    pub fn eval(&self, env: &Env) -> (r: Result<Value, String>)
        ensures
            match (r, crate::model::sp_eval_expr(self@, env@)) {
                (Ok(v), Ok(w)) => v == w,
                (Err(m), Err(q)) => m@ == q,
                _ => false,
            },
        decreases *self,
    {
        match self {
            Expression::Number(Number(n)) => Ok(Value::Number(*n)),
            Expression::Operation { lhs, rhs, op } => Operation {
                lhs: *lhs,
                rhs: *rhs,
                op: *op,
            }.eval(),
            Expression::BindingUsage(binding_usage) => binding_usage.eval(env),
            Expression::Block(block) => block.eval(env),
        }
    }
}

} // verus!
