use sril::binding_def::BindingDef;
use sril::env::Env;
use sril::expression::Expression;
use sril::expression::Number;
use sril::expression::Operator;
use sril::statement::Statement;
use sril::value::Value;

#[test]
fn statement_parse_binding_def() {
    assert_eq!(
        Statement::new("let a = 10"),
        Ok((
            "",
            Statement::BindingDef(BindingDef {
                name: "a".to_string(),
                val: Expression::Number(Number(10)),
            }),
        )),
    );
}

#[test]
fn statement_parse_expr() {
    assert_eq!(
        Statement::new("1+1"),
        Ok((
            "",
            Statement::Expression(Expression::Operation {
                lhs: Number(1),
                rhs: Number(1),
                op: Operator::Add,
            }),
        )),
    );
}

#[test]
fn eval_binding_def() {
    assert_eq!(
        Statement::BindingDef(BindingDef {
            name: "whatever".to_string(),
            val: Expression::Number(Number(-10)),
        })
        .eval(&mut Env::default()),
        Ok(Value::Unit),
    );
}

#[test]
fn eval_expr() {
    assert_eq!(
        Statement::Expression(Expression::Number(Number(5))).eval(&mut Env::default()),
        Ok(Value::Number(5)),
    );
}
