//! The result of evaluating a statement or an expression.

use vstd::prelude::*;

verus! {

/// What evaluation produces: a number, or `Unit` for statements that
/// exist only for their effect (binding definitions, empty blocks).
#[derive(Debug, Clone, Copy, PartialEq, Eq, Structural)]
pub enum Value {
    Number(i32),
    Unit,
}

} // verus!
