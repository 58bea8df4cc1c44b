use sril::binding_def::BindingDef;
use sril::binding_usage::BindingUsage;
use sril::block::Block;
use sril::env::Env;
use sril::expression::Expression;
use sril::expression::Number;
use sril::expression::Operator;
use sril::statement::Statement;
use sril::value::Value;

#[test]
fn block_parse_empty_block() {
    assert_eq!(
        Block::new("{}"),
        Ok((
            "",
            Block {
                statements: Vec::new()
            }
        ))
    );
}

#[test]
fn block_parse_empty_block_with_whitespace() {
    assert_eq!(
        Block::new("{   }"),
        Ok((
            "",
            Block {
                statements: Vec::new()
            }
        ))
    );
}

#[test]
fn block_parse_block_with_one_stmt() {
    assert_eq!(
        Block::new("{ 5 }"),
        Ok((
            "",
            Block {
                statements: vec![Statement::Expression(Expression::Number(Number(5)))],
            },
        )),
    );
}

#[test]
fn block_parse_block_with_multiple_statements() {
    assert_eq!(
        Block::new(
            "{
     let a = 10
     let b = a
     b
 }",
        ),
        Ok((
            "",
            Block {
                statements: vec![
                    Statement::BindingDef(BindingDef {
                        name: "a".to_string(),
                        val: Expression::Number(Number(10)),
                    }),
                    Statement::BindingDef(BindingDef {
                        name: "b".to_string(),
                        val: Expression::BindingUsage(BindingUsage {
                            name: "a".to_string()
                        })
                    }),
                    Statement::Expression(Expression::BindingUsage(BindingUsage {
                        name: "b".to_string(),
                    })),
                ],
            },
        )),
    );
}

#[test]
fn block_eval_block() {
    assert_eq!(
        Expression::Block(Block {
            statements: vec![Statement::Expression(Expression::Number(Number(10)))],
        })
        .eval(&Env::default()),
        Ok(Value::Number(10)),
    );
}

#[test]
fn block_eval_empty_block() {
    assert_eq!(
        Block {
            statements: Vec::new()
        }
        .eval(&Env::default()),
        Ok(Value::Unit),
    );
}

#[test]
fn block_eval_block_with_one_expr() {
    assert_eq!(
        Block {
            statements: vec![Statement::Expression(Expression::Number(Number(25)))],
        }
        .eval(&Env::default()),
        Ok(Value::Number(25)),
    );
}

#[test]
fn block_eval_block_with_binding_def_and_usage() {
    assert_eq!(
        Block {
            statements: vec![
                Statement::BindingDef(BindingDef {
                    name: "one".to_string(),
                    val: Expression::Number(Number(1)),
                }),
                Statement::Expression(Expression::BindingUsage(BindingUsage {
                    name: "one".to_string(),
                })),
            ],
        }
        .eval(&Env::default()),
        Ok(Value::Number(1)),
    );
}

#[test]
fn eval_block_with_multiple_binding_defs() {
    assert_eq!(
        Block {
            statements: vec![
                Statement::BindingDef(BindingDef {
                    name: "foo".to_string(),
                    val: Expression::Number(Number(5)),
                }),
                Statement::BindingDef(BindingDef {
                    name: "bar".to_string(),
                    val: Expression::Number(Number(4)),
                }),
                Statement::BindingDef(BindingDef {
                    name: "baz".to_string(),
                    val: Expression::Number(Number(3)),
                }),
            ],
        }
        .eval(&Env::default()),
        Ok(Value::Unit),
    );
}

#[test]
fn eval_block_with_multiple_exprs() {
    assert_eq!(
        Block {
            statements: vec![
                Statement::Expression(Expression::Number(Number(100))),
                Statement::Expression(Expression::Number(Number(30))),
                Statement::Expression(Expression::Operation {
                    lhs: Number(10),
                    rhs: Number(7),
                    op: Operator::Sub,
                }),
            ],
        }
        .eval(&Env::default()),
        Ok(Value::Number(3)),
    );
}

#[test]
fn eval_block_with_env_already_created() {
    let mut env = Env::default();
    env.store_binding("x".to_string(), Value::Number(12));

    assert_eq!(
        Block {
            statements: vec![Statement::Expression(Expression::BindingUsage(
                BindingUsage {
                    name: "x".to_string()
                }
            ))],
        }
        .eval(&env),
        Ok(Value::Number(12)),
    );
}
