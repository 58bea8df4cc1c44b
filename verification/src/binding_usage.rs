//! A reference to a binding, resolved at evaluation time.

use vstd::prelude::*;
use crate::env::Env;
use crate::env::lookup;
use crate::env::not_found_msg;
use crate::utils;
use crate::utils::sp_extract_identifier;
use crate::value::Value;

verus! {

/// The use of a name; which value it denotes depends on the
/// environment the expression is evaluated in.
#[derive(Debug, PartialEq)]
pub struct BindingUsage {
    pub name: String,
}

impl BindingUsage {
    /// An identifier, kept for resolution at evaluation time.
    pub fn new(s: &str) -> (r: Result<(&str, BindingUsage), String>)
        ensures
            match (r, sp_extract_identifier(s@)) {
                (Ok(p), Ok(q)) => p.0@ == q.0 && p.1.name@ == q.1,
                (Err(m), Err(q)) => m@ == q,
                _ => false,
            },
    {
        match utils::extract_identifier(s) {
            Ok((rest, name)) => Ok((rest, BindingUsage { name: String::from_str(name) })),
            Err(m) => Err(m),
        }
    }

    /// The value of the nearest definition of the name, or an error
    /// naming the missing binding.
    pub fn eval(&self, env: &Env) -> (r: Result<Value, String>)
        ensures
            match (r, lookup(env@, self.name@)) {
                (Ok(v), Some(w)) => v == w,
                (Err(m), None) => m@ == not_found_msg(self.name@),
                _ => false,
            },
    {
        env.get_binding_value(self.name.as_str())
    }
}

} // verus!
