//! Laws of the grammar and the semantics that hold for all inputs,
//! stated over the specification-level parser and evaluator and
//! proved once and for all.

use vstd::prelude::*;
use crate::env::lookup;
use crate::expression::Operator;
use crate::model::EnvModel;
use crate::model::ExprModel;
use crate::model::StmtModel;
use crate::model::digits_val;
use crate::model::sp_eval_expr;
use crate::model::sp_eval_stmt;
use crate::model::sp_eval_stmts;
use crate::model::sp_number;
use crate::model::sp_operator;
use crate::model::sp_parse;
use crate::model::sp_stmt;
use crate::utils::digit_p;
use crate::utils::is_digit_char;
use crate::utils::lemma_prefix_len_bound;
use crate::utils::lemma_prefix_len_is;
use crate::utils::sp_ws;
use crate::value::Value;

verus! {

broadcast use lemma_prefix_len_bound;

/// An input that starts with one or more ASCII digits parses as a
/// number: the digits are consumed and read in base 10, provided
/// their value fits a 32-bit integer.
pub proof fn lemma_number_parses_digit_prefix(s: Seq<char>, n: nat)
    requires
        1 <= n <= s.len(),
        forall|j: int| 0 <= j < n ==> is_digit_char(s[j]),
        n == s.len() || !is_digit_char(s[n as int]),
        digits_val(s.take(n as int)) <= i32::MAX,
    ensures
        sp_number(s) == Ok::<(Seq<char>, i32), Seq<char>>(
            (s.skip(n as int), digits_val(s.take(n as int)) as i32),
        ),
{
    assert forall|j: int| 0 <= j < n implies digit_p()(s[j]) by {}
    lemma_prefix_len_is(s, digit_p(), n);
}

/// An input that starts with digits whose base-10 value exceeds the
/// 32-bit range is rejected as a number, however it continues.
pub proof fn lemma_number_rejects_large(s: Seq<char>, n: nat)
    requires
        1 <= n <= s.len(),
        forall|j: int| 0 <= j < n ==> is_digit_char(s[j]),
        n == s.len() || !is_digit_char(s[n as int]),
        digits_val(s.take(n as int)) > i32::MAX,
    ensures
        sp_number(s) == Err::<(Seq<char>, i32), Seq<char>>("number too large"@),
{
    assert forall|j: int| 0 <= j < n implies digit_p()(s[j]) by {}
    lemma_prefix_len_is(s, digit_p(), n);
}

/// The operator parser accepts exactly the inputs whose first
/// character is one of `+ - * /`, consumes that character alone, and
/// maps each character to its operator.
pub proof fn lemma_operator_parse_exact(s: Seq<char>)
    ensures
        sp_operator(s) is Ok <==> s.len() > 0 && (s[0] == '+' || s[0] == '-' || s[0] == '*'
            || s[0] == '/'),
        s.len() > 0 && s[0] == '+' ==> sp_operator(s) == Ok::<(Seq<char>, Operator), Seq<char>>(
            (s.skip(1), Operator::Add),
        ),
        s.len() > 0 && s[0] == '-' ==> sp_operator(s) == Ok::<(Seq<char>, Operator), Seq<char>>(
            (s.skip(1), Operator::Sub),
        ),
        s.len() > 0 && s[0] == '*' ==> sp_operator(s) == Ok::<(Seq<char>, Operator), Seq<char>>(
            (s.skip(1), Operator::Mul),
        ),
        s.len() > 0 && s[0] == '/' ==> sp_operator(s) == Ok::<(Seq<char>, Operator), Seq<char>>(
            (s.skip(1), Operator::Div),
        ),
{
    reveal_strlit("+");
    reveal_strlit("-");
    reveal_strlit("*");
    reveal_strlit("/");
    if s.len() > 0 {
        assert(s.take(1)[0] == s[0]);
        if s[0] == '+' {
            assert(s.take(1) =~= "+"@);
        }
        if s[0] == '-' {
            assert(s.take(1) =~= "-"@);
        }
        if s[0] == '*' {
            assert(s.take(1) =~= "*"@);
        }
        if s[0] == '/' {
            assert(s.take(1) =~= "/"@);
        }
    }
}

/// Lookup resolves through the chain: pushing an empty child scope
/// changes the answer for no name.
pub proof fn lemma_lookup_child(env: EnvModel, name: Seq<char>)
    ensures
        lookup(env.push(Map::empty()), name) == lookup(env, name),
{
    assert(env.push(Map::empty()).drop_last() =~= env);
}

/// Shadowing: a name defined in the innermost scope answers from
/// there; any other name answers from the enclosing chain, which the
/// inner scope cannot alter.
pub proof fn lemma_lookup_shadowing(env: EnvModel, scope: Map<Seq<char>, Value>, name: Seq<char>)
    ensures
        lookup(env.push(scope), name) == if scope.contains_key(name) {
            Some(scope[name])
        } else {
            lookup(env, name)
        },
{
    assert(env.push(scope).drop_last() =~= env);
}

/// A bare expression statement never changes the environment; in
/// particular a block leaves every binding of the environment it was
/// evaluated in exactly as it was.
pub proof fn lemma_expression_statement_preserves_env(e: ExprModel, env: EnvModel)
    ensures
        sp_eval_stmt(StmtModel::Expression(e), env) matches Ok(q) ==> q.0 == env,
{
}

/// A block whose statements are all binding definitions — the empty
/// block among them — is worth `Unit` whenever it evaluates at all.
pub proof fn lemma_defs_only_block_unit(stmts: Seq<StmtModel>, env: EnvModel)
    requires
        forall|i: int| 0 <= i < stmts.len() ==> stmts[i] is BindingDef,
    ensures
        sp_eval_expr(ExprModel::Block(stmts), env) matches Ok(v) ==> v == Value::Unit,
{
    if stmts.len() > 0 {
        lemma_defs_only_stmts_unit(stmts, env.push(Map::empty()));
    }
}

proof fn lemma_defs_only_stmts_unit(stmts: Seq<StmtModel>, env: EnvModel)
    requires
        forall|i: int| 0 <= i < stmts.len() ==> stmts[i] is BindingDef,
    ensures
        sp_eval_stmts(stmts, env) matches Ok(q) ==> q.1 == Value::Unit,
    decreases stmts.len(),
{
    if stmts.len() > 1 && sp_eval_stmt(stmts[0], env) is Ok {
        let env2 = sp_eval_stmt(stmts[0], env)->Ok_0.0;
        assert forall|i: int| 0 <= i < stmts.drop_first().len() implies stmts.drop_first()[i]
            is BindingDef by {
            assert(stmts.drop_first()[i] == stmts[i + 1]);
        }
        lemma_defs_only_stmts_unit(stmts.drop_first(), env2);
    }
}

/// The whole-input parser rejects any input that leaves content other
/// than whitespace behind the first statement, even though the
/// statement itself parsed.
pub proof fn lemma_parse_rejects_trailing(s: Seq<char>)
    ensures
        (sp_stmt(s) matches Ok(p) && sp_ws(p.0).len() > 0) ==> sp_parse(s) == Err::<
            StmtModel,
            Seq<char>,
        >("input was not consumed fully by parser"@),
{
}

} // verus!
