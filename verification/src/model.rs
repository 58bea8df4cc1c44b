//! The mathematical model of the language: an abstract syntax over
//! character sequences, the grammar as specification-level parsing
//! functions, and the semantics as specification-level evaluation
//! functions. The executable parsers and evaluators are specified
//! against these, item for item.

use vstd::prelude::*;
use crate::binding_def::BindingDef;
use crate::binding_usage::BindingUsage;
use crate::block::Block;
use crate::env::lookup;
use crate::env::not_found_msg;
use crate::env::store;
use crate::expression::Expression;
use crate::expression::Number;
use crate::expression::Operation;
use crate::expression::Operator;
use crate::statement::Statement;
use crate::utils::digit_p;
use crate::utils::is_digit_char;
use crate::utils::lemma_prefix_len_bound;
use crate::utils::prefix_len;
use crate::utils::sp_extract_digits;
use crate::utils::sp_extract_identifier;
use crate::utils::sp_extract_required_whitespaces;
use crate::utils::sp_extract_tag;
use crate::utils::sp_ws;
use crate::utils::space_p;
use crate::utils::word_p;
use crate::value::Value;

verus! {

broadcast use lemma_prefix_len_bound;

// ---------------------------------------------------------------------
// Abstract syntax.
// ---------------------------------------------------------------------

/// An expression, abstracted over character sequences.
pub enum ExprModel {
    Number(i32),
    Operation { lhs: i32, rhs: i32, op: Operator },
    BindingUsage(Seq<char>),
    Block(Seq<StmtModel>),
}

/// A statement, abstracted over character sequences.
pub enum StmtModel {
    BindingDef { name: Seq<char>, val: ExprModel },
    Expression(ExprModel),
}

// ---------------------------------------------------------------------
// Views of the executable syntax tree.
// ---------------------------------------------------------------------

pub open spec fn view_expr(e: Expression) -> ExprModel
    decreases e,
{
    match e {
        Expression::Number(n) => ExprModel::Number(n.0),
        Expression::Operation { lhs, rhs, op } => ExprModel::Operation {
            lhs: lhs.0,
            rhs: rhs.0,
            op,
        },
        Expression::BindingUsage(b) => ExprModel::BindingUsage(b.name@),
        Expression::Block(b) => ExprModel::Block(view_stmts(b.statements@)),
    }
}

pub open spec fn view_stmt(st: Statement) -> StmtModel
    decreases st,
{
    match st {
        Statement::BindingDef(bd) => StmtModel::BindingDef {
            name: bd.name@,
            val: view_expr(bd.val),
        },
        Statement::Expression(e) => StmtModel::Expression(view_expr(e)),
    }
}

pub open spec fn view_stmts(ss: Seq<Statement>) -> Seq<StmtModel>
    decreases ss,
{
    if ss.len() == 0 {
        Seq::empty()
    } else {
        seq![view_stmt(ss[0])] + view_stmts(ss.drop_first())
    }
}

pub broadcast proof fn lemma_view_stmts_len(ss: Seq<Statement>)
    ensures
        (#[trigger] view_stmts(ss)).len() == ss.len(),
    decreases ss.len(),
{
    if ss.len() > 0 {
        lemma_view_stmts_len(ss.drop_first());
    }
}

pub broadcast proof fn lemma_view_stmts_index(ss: Seq<Statement>, i: int)
    requires
        0 <= i < ss.len(),
    ensures
        #[trigger] view_stmts(ss)[i] == view_stmt(ss[i]),
    decreases ss.len(),
{
    lemma_view_stmts_len(ss);
    if i > 0 {
        lemma_view_stmts_index(ss.drop_first(), i - 1);
    }
}

/// Appending a statement appends its view.
pub proof fn lemma_view_stmts_push(ss: Seq<Statement>, st: Statement)
    ensures
        view_stmts(ss.push(st)) == view_stmts(ss).push(view_stmt(st)),
{
    broadcast use lemma_view_stmts_len, lemma_view_stmts_index;

    assert(view_stmts(ss.push(st)) =~= view_stmts(ss).push(view_stmt(st)));
}

impl View for Expression {
    type V = ExprModel;

    open spec fn view(&self) -> ExprModel {
        view_expr(*self)
    }
}

impl View for Statement {
    type V = StmtModel;

    open spec fn view(&self) -> StmtModel {
        view_stmt(*self)
    }
}

impl View for Block {
    type V = Seq<StmtModel>;

    open spec fn view(&self) -> Seq<StmtModel> {
        view_stmts(self.statements@)
    }
}

impl View for BindingUsage {
    type V = Seq<char>;

    open spec fn view(&self) -> Seq<char> {
        self.name@
    }
}

impl View for BindingDef {
    type V = StmtModel;

    open spec fn view(&self) -> StmtModel {
        StmtModel::BindingDef { name: self.name@, val: view_expr(self.val) }
    }
}

// ---------------------------------------------------------------------
// Digit sequences read as base-10 integers.
// ---------------------------------------------------------------------

pub open spec fn digits_val(d: Seq<char>) -> int
    decreases d.len(),
{
    if d.len() == 0 {
        0
    } else {
        digits_val(d.drop_last()) * 10 + (d.last() as u32 - 48)
    }
}

pub proof fn lemma_digits_val_nonneg(d: Seq<char>)
    requires
        forall|j: int| 0 <= j < d.len() ==> is_digit_char(d[j]),
    ensures
        digits_val(d) >= 0,
    decreases d.len(),
{
    if d.len() > 0 {
        lemma_digits_val_nonneg(d.drop_last());
    }
}

/// Reading more digits never shrinks the value.
pub proof fn lemma_digits_val_grows(d: Seq<char>, n: int)
    requires
        0 <= n <= d.len(),
        forall|j: int| 0 <= j < d.len() ==> is_digit_char(d[j]),
    ensures
        digits_val(d.take(n)) <= digits_val(d),
    decreases d.len() - n,
{
    if n < d.len() {
        lemma_digits_val_grows(d, n + 1);
        let t = d.take(n + 1);
        assert(t.drop_last() =~= d.take(n));
        lemma_digits_val_nonneg(d.take(n));
        assert(digits_val(d.take(n)) * 10 >= digits_val(d.take(n))) by (nonlinear_arith)
            requires digits_val(d.take(n)) >= 0;
    } else {
        assert(d.take(n) =~= d);
    }
}

// ---------------------------------------------------------------------
// The grammar: one specification parser per rule. Each takes the
// remaining input and yields either (remainder, node) or the error
// text the scanner or rule produces.
// ---------------------------------------------------------------------

/// One or more ASCII digits, read as a base-10 `i32`.
pub open spec fn sp_number(s: Seq<char>) -> Result<(Seq<char>, i32), Seq<char>> {
    match sp_extract_digits(s) {
        Ok((rest, d)) => if digits_val(d) <= i32::MAX {
            Ok((rest, digits_val(d) as i32))
        } else {
            Err("number too large"@)
        },
        Err(m) => Err(m),
    }
}

/// A single-character operator, tried in the order `+ - * /`.
pub open spec fn sp_operator(s: Seq<char>) -> Result<(Seq<char>, Operator), Seq<char>> {
    match sp_extract_tag("+"@, s) {
        Ok(rest) => Ok((rest, Operator::Add)),
        Err(_) => match sp_extract_tag("-"@, s) {
            Ok(rest) => Ok((rest, Operator::Sub)),
            Err(_) => match sp_extract_tag("*"@, s) {
                Ok(rest) => Ok((rest, Operator::Mul)),
                Err(_) => match sp_extract_tag("/"@, s) {
                    Ok(rest) => Ok((rest, Operator::Div)),
                    Err(m) => Err(m),
                },
            },
        },
    }
}

/// `Number, whitespace*, Operator, whitespace*, Number`.
pub open spec fn sp_operation(s: Seq<char>) -> Result<
    (Seq<char>, (i32, i32, Operator)),
    Seq<char>,
> {
    match sp_number(s) {
        Err(m) => Err(m),
        Ok((s1, lhs)) => match sp_operator(sp_ws(s1)) {
            Err(m) => Err(m),
            Ok((s2, op)) => match sp_number(sp_ws(s2)) {
                Err(m) => Err(m),
                Ok((s3, rhs)) => Ok((s3, (lhs, rhs, op))),
            },
        },
    }
}

/// `let`, space, identifier, space, `=`, expression: the name bound
/// and the expression it is bound to.
pub open spec fn sp_binding_def(s: Seq<char>) -> Result<
    (Seq<char>, (Seq<char>, ExprModel)),
    Seq<char>,
>
    decreases s.len(), 0int,
    via sp_binding_def_dec
{
    match sp_extract_tag("let"@, s) {
        Err(m) => Err(m),
        Ok(s1) => match sp_extract_required_whitespaces(s1) {
            Err(m) => Err(m),
            Ok((s2, _)) => match sp_extract_identifier(s2) {
                Err(m) => Err(m),
                Ok((s3, name)) => match sp_extract_required_whitespaces(s3) {
                    Err(m) => Err(m),
                    Ok((s4, _)) => match sp_extract_tag("="@, s4) {
                        Err(m) => Err(m),
                        Ok(s5) => match sp_expr(sp_ws(s5)) {
                            Err(m) => Err(m),
                            Ok((s6, val)) => Ok((s6, (name, val))),
                        },
                    },
                },
            },
        },
    }
}

#[via_fn]
proof fn sp_binding_def_dec(s: Seq<char>) {
    reveal_strlit("let");
    reveal_strlit("=");
}

/// Expression alternatives, in priority order: Operation, Number,
/// BindingUsage, Block; each alternative starts over from the same
/// input.
pub open spec fn sp_expr(s: Seq<char>) -> Result<(Seq<char>, ExprModel), Seq<char>>
    decreases s.len(), 1int,
{
    match sp_operation(s) {
        Ok((rest, (lhs, rhs, op))) => Ok((rest, ExprModel::Operation { lhs, rhs, op })),
        Err(_) => match sp_number(s) {
            Ok((rest, n)) => Ok((rest, ExprModel::Number(n))),
            Err(_) => match sp_extract_identifier(s) {
                Ok((rest, name)) => Ok((rest, ExprModel::BindingUsage(name))),
                Err(_) => sp_block(s),
            },
        },
    }
}

/// `{`, whitespace*, statements, whitespace*, `}`.
pub open spec fn sp_block(s: Seq<char>) -> Result<(Seq<char>, ExprModel), Seq<char>>
    decreases s.len(), 0int,
    via sp_block_dec
{
    match sp_extract_tag("{"@, s) {
        Err(m) => Err(m),
        Ok(s1) => {
            let (stmts, s2) = sp_stmts(sp_ws(s1));
            match sp_extract_tag("}"@, sp_ws(s2)) {
                Err(m) => Err(m),
                Ok(s3) => Ok((s3, ExprModel::Block(stmts))),
            }
        },
    }
}

#[via_fn]
proof fn sp_block_dec(s: Seq<char>) {
    reveal_strlit("{");
}

/// Zero or more statements, each followed by optional whitespace;
/// consumption stops at the first statement that fails to parse.
pub open spec fn sp_stmts(s: Seq<char>) -> (Seq<StmtModel>, Seq<char>)
    decreases s.len(), 3int,
{
    match sp_stmt(s) {
        Err(_) => (Seq::empty(), s),
        Ok((rest, st)) => {
            let rest2 = sp_ws(rest);
            // A successful statement always consumes at least one
            // character (lemma_parsers_consume); the bound only makes
            // termination plain.
            if rest2.len() < s.len() {
                let (more, fin) = sp_stmts(rest2);
                (seq![st] + more, fin)
            } else {
                (seq![st], rest2)
            }
        },
    }
}

/// A binding definition, or else a bare expression.
pub open spec fn sp_stmt(s: Seq<char>) -> Result<(Seq<char>, StmtModel), Seq<char>>
    decreases s.len(), 2int,
{
    match sp_binding_def(s) {
        Ok((rest, (name, val))) => Ok((rest, StmtModel::BindingDef { name, val })),
        Err(_) => match sp_expr(s) {
            Ok((rest, e)) => Ok((rest, StmtModel::Expression(e))),
            Err(m) => Err(m),
        },
    }
}

/// One whole statement; trailing content other than whitespace is
/// rejected.
pub open spec fn sp_parse(s: Seq<char>) -> Result<StmtModel, Seq<char>> {
    match sp_stmt(s) {
        Err(m) => Err(m),
        Ok((rest, st)) => if sp_ws(rest).len() == 0 {
            Ok(st)
        } else {
            Err("input was not consumed fully by parser"@)
        },
    }
}

// ---------------------------------------------------------------------
// The semantics: evaluation against a chain of scopes.
// ---------------------------------------------------------------------

/// A chain of scopes, outermost first.
pub type EnvModel = Seq<Map<Seq<char>, Value>>;

/// Division rounding toward zero, as the machine divides.
pub open spec fn div_trunc(x: int, d: int) -> int {
    if x == 0 {
        0
    } else if x > 0 && d > 0 {
        x / d
    } else if x < 0 && d < 0 {
        (x * -1) / (d * -1)
    } else if x < 0 {
        ((x * -1) / d) * -1
    } else {
        (x / (d * -1)) * -1
    }
}

/// Apply an operator to two numbers. Division by zero and any result
/// outside the 32-bit range are evaluation errors.
pub open spec fn sp_eval_op(op: Operator, lhs: i32, rhs: i32) -> Result<Value, Seq<char>> {
    match op {
        Operator::Add => if i32::MIN <= lhs + rhs <= i32::MAX {
            Ok(Value::Number((lhs + rhs) as i32))
        } else {
            Err("numeric overflow"@)
        },
        Operator::Sub => if i32::MIN <= lhs - rhs <= i32::MAX {
            Ok(Value::Number((lhs - rhs) as i32))
        } else {
            Err("numeric overflow"@)
        },
        Operator::Mul => if i32::MIN <= lhs * rhs <= i32::MAX {
            Ok(Value::Number((lhs * rhs) as i32))
        } else {
            Err("numeric overflow"@)
        },
        Operator::Div => if rhs == 0 {
            Err("division by zero"@)
        } else if i32::MIN <= div_trunc(lhs as int, rhs as int) <= i32::MAX {
            Ok(Value::Number(div_trunc(lhs as int, rhs as int) as i32))
        } else {
            Err("numeric overflow"@)
        },
    }
}

/// The value of an expression. Evaluating an expression never changes
/// the environment it is given: a block works on a child scope of its
/// own and discards it.
pub open spec fn sp_eval_expr(e: ExprModel, env: EnvModel) -> Result<Value, Seq<char>>
    decreases e,
{
    match e {
        ExprModel::Number(n) => Ok(Value::Number(n)),
        ExprModel::Operation { lhs, rhs, op } => sp_eval_op(op, lhs, rhs),
        ExprModel::BindingUsage(name) => match lookup(env, name) {
            Some(v) => Ok(v),
            None => Err(not_found_msg(name)),
        },
        ExprModel::Block(stmts) => if stmts.len() == 0 {
            Ok(Value::Unit)
        } else {
            match sp_eval_stmts(stmts, env.push(Map::empty())) {
                Ok((_, v)) => Ok(v),
                Err(m) => Err(m),
            }
        },
    }
}

/// Evaluate statements in order, threading the environment; the value
/// is that of the last statement.
pub open spec fn sp_eval_stmts(stmts: Seq<StmtModel>, env: EnvModel) -> Result<
    (EnvModel, Value),
    Seq<char>,
>
    decreases stmts,
{
    if stmts.len() == 0 {
        Ok((env, Value::Unit))
    } else {
        match sp_eval_stmt(stmts[0], env) {
            Err(m) => Err(m),
            Ok((env2, v)) => if stmts.len() == 1 {
                Ok((env2, v))
            } else {
                sp_eval_stmts(stmts.drop_first(), env2)
            },
        }
    }
}

/// Evaluate one statement: a definition stores its value in the
/// innermost scope and yields `Unit`; a bare expression leaves the
/// environment as it was.
pub open spec fn sp_eval_stmt(st: StmtModel, env: EnvModel) -> Result<
    (EnvModel, Value),
    Seq<char>,
>
    decreases st,
{
    match st {
        StmtModel::BindingDef { name, val } => match sp_eval_expr(val, env) {
            Err(m) => Err(m),
            Ok(v) => Ok((store(env, name, v), Value::Unit)),
        },
        StmtModel::Expression(e) => match sp_eval_expr(e, env) {
            Err(m) => Err(m),
            Ok(v) => Ok((env, v)),
        },
    }
}

// ---------------------------------------------------------------------
// Every successful parse consumes at least one character, and no
// parser consumes more input than it was given.
// ---------------------------------------------------------------------

#[verifier::rlimit(50)]
pub proof fn lemma_parsers_consume(s: Seq<char>)
    ensures
        sp_number(s) matches Ok(p) ==> p.0.len() < s.len(),
        sp_operation(s) matches Ok(p) ==> p.0.len() < s.len(),
        sp_extract_identifier(s) matches Ok(p) ==> p.0.len() < s.len(),
        sp_binding_def(s) matches Ok(p) ==> p.0.len() < s.len(),
        sp_expr(s) matches Ok(p) ==> p.0.len() < s.len(),
        sp_block(s) matches Ok(p) ==> p.0.len() < s.len(),
        sp_stmt(s) matches Ok(p) ==> p.0.len() < s.len(),
        sp_stmts(s).1.len() <= s.len(),
    decreases s.len(),
{
    reveal_strlit("let");
    reveal_strlit("=");
    reveal_strlit("{");
    reveal_strlit("}");
    if sp_extract_tag("{"@, s) is Ok {
        let s1 = sp_extract_tag("{"@, s)->Ok_0;
        let s2 = sp_ws(s1);
        if s2.len() < s.len() {
            lemma_parsers_consume(s2);
        }
    }
    if sp_stmt(s) is Ok {
        let rest2 = sp_ws(sp_stmt(s)->Ok_0.0);
        if rest2.len() < s.len() {
            lemma_parsers_consume(rest2);
        }
    }
    if sp_extract_tag("let"@, s) is Ok {
        let s1 = sp_extract_tag("let"@, s)->Ok_0;
        if sp_extract_required_whitespaces(s1) is Ok {
            let s2 = sp_extract_required_whitespaces(s1)->Ok_0.0;
            if sp_extract_identifier(s2) is Ok {
                let s3 = sp_extract_identifier(s2)->Ok_0.0;
                if sp_extract_required_whitespaces(s3) is Ok {
                    let s4 = sp_extract_required_whitespaces(s3)->Ok_0.0;
                    if sp_extract_tag("="@, s4) is Ok {
                        let s6 = sp_ws(sp_extract_tag("="@, s4)->Ok_0);
                        if s6.len() < s.len() {
                            lemma_parsers_consume(s6);
                        }
                    }
                }
            }
        }
    }
}

} // verus!
