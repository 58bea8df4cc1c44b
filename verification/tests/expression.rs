use sril::binding_usage::BindingUsage;
use sril::env::Env;
use sril::expression::Expression;
use sril::expression::Number;
use sril::expression::Operator;
use sril::value::Value;

#[test]
fn parse_number() {
    assert_eq!(Number::new("123"), Ok(("", Number(123))));
}

#[test]
fn parse_add_op() {
    assert_eq!(Operator::new("+"), Ok(("", Operator::Add)));
}

#[test]
fn parse_sub_op() {
    assert_eq!(Operator::new("-"), Ok(("", Operator::Sub)));
}

#[test]
fn parse_mul_op() {
    assert_eq!(Operator::new("*"), Ok(("", Operator::Mul)));
}

#[test]
fn parse_div_op() {
    assert_eq!(Operator::new("/"), Ok(("", Operator::Div)));
}

#[test]
fn parse_one_plus_two() {
    assert_eq!(
        Expression::new("1+2"),
        Ok((
            "",
            Expression::Operation {
                lhs: Number(1),
                rhs: Number(2),
                op: Operator::Add
            }
        ))
    );
}

#[test]
fn parse_one_plus_two_with_whitespace() {
    assert_eq!(
        Expression::new("1 + 2"),
        Ok((
            "",
            Expression::Operation {
                lhs: Number(1),
                rhs: Number(2),
                op: Operator::Add
            }
        ))
    );
}

#[test]
fn eval_add() {
    assert_eq!(
        Expression::Operation {
            lhs: Number(10),
            rhs: Number(10),
            op: Operator::Add,
        }
        .eval(&Env::default()),
        Ok(Value::Number(20)),
    );
}

#[test]
fn eval_sub() {
    assert_eq!(
        Expression::Operation {
            lhs: Number(1),
            rhs: Number(5),
            op: Operator::Sub,
        }
        .eval(&Env::default()),
        Ok(Value::Number(-4)),
    );
}

#[test]
fn eval_mul() {
    assert_eq!(
        Expression::Operation {
            lhs: Number(5),
            rhs: Number(6),
            op: Operator::Mul,
        }
        .eval(&Env::default()),
        Ok(Value::Number(30)),
    );
}

#[test]
fn eval_div() {
    assert_eq!(
        Expression::Operation {
            lhs: Number(200),
            rhs: Number(20),
            op: Operator::Div,
        }
        .eval(&Env::default()),
        Ok(Value::Number(10)),
    );
}

#[test]
fn parse_number_as_expr() {
    assert_eq!(
        Expression::new("456"),
        Ok(("", Expression::Number(Number(456))))
    );
}

#[test]
fn eval_binding_usage() {
    let mut env = Env::default();
    env.store_binding("ten".to_string(), Value::Number(10));

    assert_eq!(
        Expression::BindingUsage(BindingUsage {
            name: "ten".to_string(),
        })
        .eval(&env),
        Ok(Value::Number(10)),
    );
}
