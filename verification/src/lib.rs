//! A small expression language: integer arithmetic, immutable `let`
//! bindings, and lexically scoped blocks.
//!
//! Raw text is parsed by a recursive-descent parser into an abstract
//! syntax tree, which a tree-walking evaluator reduces to a [`Value`]
//! against an [`Env`] of bindings. Every parser is specified against a
//! specification-level grammar and every evaluator against a
//! specification-level semantics; both live in [`model`].

pub mod binding_def;
pub mod binding_usage;
pub mod block;
pub mod env;
pub mod expression;
pub mod laws;
pub mod model;
pub mod statement;
pub mod utils;
pub mod value;

use vstd::prelude::*;
use crate::env::Env;
use crate::model::StmtModel;
use crate::model::sp_eval_stmt;
use crate::model::sp_parse;
use crate::statement::Statement;
use crate::value::Value;

verus! {

/// A statement parsed from one whole input.
#[derive(Debug)]
pub struct Parse(Statement);

impl View for Parse {
    type V = StmtModel;

    closed spec fn view(&self) -> StmtModel {
        self.0@
    }
}

impl Parse {
    /// Evaluate the parsed statement against a caller-owned
    /// environment, which persists across calls so that bindings
    /// accumulate.
    pub fn eval(&self, env: &mut Env) -> (r: Result<Value, String>)
        ensures
            match (r, sp_eval_stmt(self@, old(env)@)) {
                (Ok(v), Ok(q)) => v == q.1 && final(env)@ == q.0,
                (Err(m), Err(q)) => m@ == q && final(env)@ == old(env)@,
                _ => false,
            },
    {
        self.0.eval(env)
    }
}

/// Parse exactly one statement; anything but whitespace left over
/// after it is an error.
pub fn parse(s: &str) -> (r: Result<Parse, String>)
    ensures
        match (r, sp_parse(s@)) {
            (Ok(p), Ok(st)) => p@ == st,
            (Err(m), Err(q)) => m@ == q,
            _ => false,
        },
{
    match Statement::new(s) {
        Err(m) => Err(m),
        Ok((rest, stmt)) => {
            let (rest2, _) = utils::extract_whitespaces(rest);
            if rest2.is_empty() {
                Ok(Parse(stmt))
            } else {
                Err(String::from_str("input was not consumed fully by parser"))
            }
        },
    }
}

/// Parse one line and evaluate it: the value for the caller to show,
/// `None` where it was `Unit`, or an error labelled with the stage
/// that produced it.
pub fn run(input: &str, env: &mut Env) -> (r: Result<Option<Value>, String>)
    ensures
        match sp_parse(input@) {
            Err(m) => r matches Err(e) && e@ == "Parse error: "@ + m && final(env)@ == old(
                env,
            )@,
            Ok(st) => match sp_eval_stmt(st, old(env)@) {
                Err(m) => r matches Err(e) && e@ == "Evaluation error: "@ + m && final(env)@
                    == old(env)@,
                Ok(q) => final(env)@ == q.0 && (r matches Ok(o) && o == (
                if q.1 == Value::Unit {
                    None::<Value>
                } else {
                    Some(q.1)
                })),
            },
        },
{
    let parsed = match parse(input) {
        Ok(p) => p,
        Err(m) => {
            return Err(String::from_str("Parse error: ").concat(m.as_str()));
        },
    };
    let evaluated = match parsed.eval(env) {
        Ok(v) => v,
        Err(m) => {
            return Err(String::from_str("Evaluation error: ").concat(m.as_str()));
        },
    };
    if evaluated == Value::Unit {
        Ok(None)
    } else {
        Ok(Some(evaluated))
    }
}

} // verus!
