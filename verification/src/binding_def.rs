//! Binding definitions: `let name = expression`.

use vstd::prelude::*;
use crate::expression::Expression;
use crate::model::sp_binding_def;
use crate::utils;
use crate::utils::lemma_prefix_len_bound;

verus! {

broadcast use lemma_prefix_len_bound;

/// The keywords that could introduce a definition; only `Let` is part
/// of the grammar today.
#[derive(Debug, PartialEq, Eq, Structural)]
pub enum Identifier {
    Let,
    Const,
}

/// `let name = val`: evaluating it stores the value of `val` under
/// `name` in the current environment and yields `Unit`.
#[derive(Debug, PartialEq)]
pub struct BindingDef {
    pub name: String,
    pub val: Expression,
}

impl BindingDef {
    /// `let`, required space, identifier, required space, `=`,
    /// optional space, expression.
    pub fn new(s: &str) -> (r: Result<(&str, BindingDef), String>)
        ensures
            match (r, sp_binding_def(s@)) {
                (Ok(p), Ok(q)) => p.0@ == q.0 && p.1.name@ == q.1.0 && p.1.val@ == q.1.1,
                (Err(m), Err(q)) => m@ == q,
                _ => false,
            },
        decreases s@.len(), 2int,
    {
        let s1 = match utils::extract_tag("let", s) {
            Ok(rest) => rest,
            Err(m) => {
                return Err(m);
            },
        };
        let (s2, _) = match utils::extract_required_whitespaces(s1) {
            Ok(p) => p,
            Err(m) => {
                return Err(m);
            },
        };
        let (s3, name) = match utils::extract_identifier(s2) {
            Ok(p) => p,
            Err(m) => {
                return Err(m);
            },
        };
        let (s4, _) = match utils::extract_required_whitespaces(s3) {
            Ok(p) => p,
            Err(m) => {
                return Err(m);
            },
        };
        let s5 = match utils::extract_tag("=", s4) {
            Ok(rest) => rest,
            Err(m) => {
                return Err(m);
            },
        };
        let (s6, _) = utils::extract_whitespaces(s5);
        proof {
            assert(s6@.len() <= s@.len());
        }
        let (s7, val) = match Expression::new(s6) {
            Ok(p) => p,
            Err(m) => {
                return Err(m);
            },
        };
        Ok((s7, BindingDef { name: String::from_str(name), val }))
    }

    /// Evaluate the right-hand side in the current environment, then
    /// store it there under the bound name; the definition itself is
    /// worth `Unit`. On an error nothing is stored.
    pub fn eval(&self, env: &mut crate::env::Env) -> (r: Result<crate::value::Value, String>)
        ensures
            match (r, crate::model::sp_eval_stmt(self@, old(env)@)) {
                (Ok(v), Ok(q)) => v == q.1 && final(env)@ == q.0 && v == crate::value::Value::Unit,
                (Err(m), Err(q)) => m@ == q && final(env)@ == old(env)@,
                _ => false,
            },
        decreases *self,
    {
        let value = match self.val.eval(env) {
            Ok(v) => v,
            Err(m) => {
                return Err(m);
            },
        };
        env.store_binding(self.name.clone(), value);
        Ok(crate::value::Value::Unit)
    }
}

} // verus!
