//! Blocks: brace-delimited statement sequences with their own scope.

use vstd::prelude::*;
use crate::env::Env;
use crate::model::ExprModel;
use crate::model::lemma_parsers_consume;
use crate::model::lemma_view_stmts_index;
use crate::model::lemma_view_stmts_len;
use crate::model::lemma_view_stmts_push;
use crate::model::sp_block;
use crate::model::sp_eval_expr;
use crate::model::sp_eval_stmts;
use crate::model::sp_stmt;
use crate::model::sp_stmts;
use crate::model::view_stmt;
use crate::model::view_stmts;
use crate::statement::Statement;
use crate::utils;
use crate::utils::lemma_prefix_len_bound;
use crate::value::Value;

verus! {

broadcast use lemma_prefix_len_bound, lemma_view_stmts_len, lemma_view_stmts_index;

/// An ordered sequence of statements evaluated in a fresh child scope;
/// the block's value is the value of its last statement, or `Unit`
/// when it has none.
#[derive(Debug, PartialEq)]
pub struct Block {
    pub statements: Vec<Statement>,
}

impl Block {
    /// `{`, optional whitespace, statements each followed by optional
    /// whitespace, `}`. Statement consumption stops, silently, at the
    /// first failure: that is how the closing brace is found.
    pub fn new(s: &str) -> (r: Result<(&str, Block), String>)
        ensures
            match (r, sp_block(s@)) {
                (Ok(p), Ok(q)) => p.0@ == q.0 && q.1 == ExprModel::Block(p.1@),
                (Err(m), Err(q)) => m@ == q,
                _ => false,
            },
        decreases s@.len(), 0int,
    {
        let s0 = match utils::extract_tag("{", s) {
            Ok(rest) => rest,
            Err(m) => {
                return Err(m);
            },
        };
        let (s1, _) = utils::extract_whitespaces(s0);
        proof {
            reveal_strlit("{");
            assert(s1@.len() < s@.len());
        }
        let mut cur: &str = s1;
        let mut statements: Vec<Statement> = Vec::new();
        loop
            invariant
                cur@.len() < s@.len(),
                sp_stmts(s1@).0 == view_stmts(statements@) + sp_stmts(cur@).0,
                sp_stmts(s1@).1 == sp_stmts(cur@).1,
            ensures
                sp_stmt(cur@) is Err,
                sp_stmts(s1@).0 == view_stmts(statements@),
                sp_stmts(s1@).1 == cur@,
            decreases cur@.len(),
        {
            proof {
                assert(view_stmts(Seq::<Statement>::empty()) + sp_stmts(cur@).0 =~= sp_stmts(
                    cur@,
                ).0);
            }
            match Statement::new(cur) {
                Err(_) => {
                    proof {
                        assert(view_stmts(statements@) + Seq::<
                            crate::model::StmtModel,
                        >::empty() =~= view_stmts(statements@));
                    }
                    break;
                },
                Ok((new_s, stmt)) => {
                    proof {
                        lemma_parsers_consume(cur@);
                        lemma_view_stmts_push(statements@, stmt);
                    }
                    let ghost prev = statements@;
                    let ghost prev_cur = cur@;
                    statements.push(stmt);
                    let (new_s2, _) = utils::extract_whitespaces(new_s);
                    cur = new_s2;
                    proof {
                        assert(sp_stmts(prev_cur) == (
                            seq![stmt@] + sp_stmts(cur@).0,
                            sp_stmts(cur@).1,
                        ));
                        assert(view_stmts(prev) + (seq![stmt@] + sp_stmts(cur@).0)
                            =~= view_stmts(statements@) + sp_stmts(cur@).0);
                    }
                },
            }
        }
        let (s2, _) = utils::extract_whitespaces(cur);
        match utils::extract_tag("}", s2) {
            Err(m) => Err(m),
            Ok(rest) => Ok((rest, Block { statements })),
        }
    }

    /// Evaluate the block in a fresh child scope of `env`: every
    /// statement but the last only for its effect, the last for the
    /// block's value. The child scope is discarded; `env` itself is
    /// never changed. An empty block is worth `Unit`.
    pub fn eval(&self, env: &Env) -> (r: Result<Value, String>)
        ensures
            match (r, sp_eval_expr(ExprModel::Block(self@), env@)) {
                (Ok(v), Ok(w)) => v == w,
                (Err(m), Err(q)) => m@ == q,
                _ => false,
            },
        decreases *self,
    {
        if self.statements.len() == 0 {
            return Ok(Value::Unit);
        }
        let mut child = env.create_child();
        let ghost child0 = child@;
        let ghost sv = self@;
        proof {
            assert(sv.skip(0) =~= sv);
        }
        let n = self.statements.len();
        let mut i: usize = 0;
        while i < n - 1
            invariant
                n == self.statements@.len(),
                n >= 1,
                i <= n - 1,
                sv == view_stmts(self.statements@),
                sv.len() == n,
                child0 == env@.push(Map::empty()),
                sp_eval_stmts(sv, child0) == sp_eval_stmts(sv.skip(i as int), child@),
            decreases n - 1 - i,
        {
            proof {
                assert(sv.skip(i as int)[0] == view_stmt(self.statements@[i as int]));
            }
            match self.statements[i].eval(&mut child) {
                Ok(_) => {},
                Err(e) => {
                    return Err(e);
                },
            }
            proof {
                assert(sv.skip(i as int).drop_first() =~= sv.skip(i + 1));
            }
            i = i + 1;
        }
        proof {
            assert(sv.skip(n - 1).len() == 1);
            assert(sv.skip(n - 1)[0] == view_stmt(self.statements@[n - 1]));
        }
        match self.statements[n - 1].eval(&mut child) {
            Ok(v) => Ok(v),
            Err(e) => Err(e),
        }
    }
}

} // verus!
