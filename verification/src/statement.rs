//! Statements: a binding definition or a bare expression.

use vstd::prelude::*;
use crate::binding_def::BindingDef;
use crate::env::Env;
use crate::expression::Expression;
use crate::model::sp_stmt;
use crate::value::Value;

verus! {

/// One statement of a program or block.
#[derive(Debug, PartialEq)]
pub enum Statement {
    BindingDef(BindingDef),
    Expression(Expression),
}

impl Statement {
    /// A binding definition, or else a bare expression; each attempt
    /// starts over from the same input.
    pub fn new(s: &str) -> (r: Result<(&str, Statement), String>)
        ensures
            match (r, sp_stmt(s@)) {
                (Ok(p), Ok(q)) => p.0@ == q.0 && p.1@ == q.1,
                (Err(m), Err(q)) => m@ == q,
                _ => false,
            },
        decreases s@.len(), 3int,
    {
        match BindingDef::new(s) {
            Ok((rest, binding_def)) => Ok((rest, Statement::BindingDef(binding_def))),
            Err(_) => match Expression::new(s) {
                Ok((rest, expression)) => Ok((rest, Statement::Expression(expression))),
                Err(m) => Err(m),
            },
        }
    }

    /// Evaluate the statement: a definition stores its value in the
    /// current environment and yields `Unit`; a bare expression
    /// yields its value and leaves the environment as it was.
    pub fn eval(&self, env: &mut Env) -> (r: Result<Value, String>)
        ensures
            match (r, crate::model::sp_eval_stmt(self@, old(env)@)) {
                (Ok(v), Ok(q)) => v == q.1 && final(env)@ == q.0,
                (Err(m), Err(q)) => m@ == q && final(env)@ == old(env)@,
                _ => false,
            },
        decreases *self,
    {
        match self {
            Statement::BindingDef(binding_def) => match binding_def.eval(env) {
                Ok(_) => Ok(crate::value::Value::Unit),
                Err(m) => Err(m),
            },
            Statement::Expression(expression) => expression.eval(env),
        }
    }
}

} // verus!
