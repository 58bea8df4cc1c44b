use sril::env::Env;
use sril::expression::Expression;
use sril::expression::Number;
use sril::expression::Operator;
use sril::parse;
use sril::run;
use sril::value::Value;

#[test]
fn round_trip_block_with_bindings() {
    let mut env = Env::default();
    let parsed = parse("{ let a = 10 let b = a b }").unwrap();
    assert_eq!(parsed.eval(&mut env), Ok(Value::Number(10)));
}

#[test]
fn shadowing_inner_block_sees_outer_binding() {
    let mut env = Env::default();
    env.store_binding("x".to_string(), Value::Number(12));
    let parsed = parse("{ x }").unwrap();
    assert_eq!(parsed.eval(&mut env), Ok(Value::Number(12)));
}

#[test]
fn shadowing_does_not_leak_out_of_block() {
    let mut env = Env::default();
    env.store_binding("x".to_string(), Value::Number(12));
    let parsed = parse("{ let x = 2 x }").unwrap();
    assert_eq!(parsed.eval(&mut env), Ok(Value::Number(2)));
    assert_eq!(
        env.get_binding_value("x"),
        Ok(Value::Number(12)),
        "the outer binding must be untouched after the block",
    );
}

#[test]
fn nested_block_resolves_through_both_parents() {
    let mut env = Env::default();
    env.store_binding("x".to_string(), Value::Number(12));
    let parsed = parse("{ { x } }").unwrap();
    assert_eq!(parsed.eval(&mut env), Ok(Value::Number(12)));
}

#[test]
fn multiplication_overflow_is_an_error() {
    let mut env = Env::default();
    let parsed = parse("65536 * 65536").unwrap();
    assert_eq!(parsed.eval(&mut env), Err("numeric overflow".to_string()));
}

#[test]
fn defs_only_block_yields_unit() {
    let mut env = Env::default();
    let parsed = parse("{ let a = 1 let b = 2 }").unwrap();
    assert_eq!(parsed.eval(&mut env), Ok(Value::Unit));
}

#[test]
fn undefined_binding_fails_at_top_level() {
    let mut env = Env::default();
    let parsed = parse("nope").unwrap();
    assert_eq!(
        parsed.eval(&mut env),
        Err("binding with name \u{2018}nope\u{2019} does not exist".to_string()),
    );
}

#[test]
fn undefined_binding_fails_inside_block() {
    let mut env = Env::default();
    let parsed = parse("{ nope }").unwrap();
    assert_eq!(
        parsed.eval(&mut env),
        Err("binding with name \u{2018}nope\u{2019} does not exist".to_string()),
    );
}

#[test]
fn trailing_tokens_are_rejected() {
    match parse("5 q q") {
        Err(e) => assert_eq!(e, "input was not consumed fully by parser"),
        Ok(_) => panic!("trailing tokens must be rejected"),
    }
}

#[test]
fn trailing_whitespace_is_accepted() {
    let mut env = Env::default();
    let parsed = parse("5 \n").unwrap();
    assert_eq!(parsed.eval(&mut env), Ok(Value::Number(5)));
}

#[test]
fn division_by_zero_is_an_error() {
    let mut env = Env::default();
    let parsed = parse("1 / 0").unwrap();
    assert_eq!(parsed.eval(&mut env), Err("division by zero".to_string()));
}

#[test]
fn division_truncates() {
    let mut env = Env::default();
    let parsed = parse("7 / 2").unwrap();
    assert_eq!(parsed.eval(&mut env), Ok(Value::Number(3)));
}

#[test]
fn addition_overflow_is_an_error() {
    let mut env = Env::default();
    let parsed = parse("2147483647 + 1").unwrap();
    assert_eq!(parsed.eval(&mut env), Err("numeric overflow".to_string()));
}

#[test]
fn subtraction_overflow_is_an_error() {
    assert_eq!(
        Expression::Operation {
            lhs: Number(-2147483648),
            rhs: Number(1),
            op: Operator::Sub,
        }
        .eval(&Env::default()),
        Err("numeric overflow".to_string()),
    );
}

#[test]
fn number_literal_too_large_is_a_parse_error() {
    assert_eq!(
        Number::new("9999999999"),
        Err("number too large".to_string()),
    );
}

#[test]
fn operator_rejects_anything_else() {
    assert!(Operator::new("%").is_err());
    assert!(Operator::new("").is_err());
}

#[test]
fn run_suppresses_unit_and_keeps_bindings() {
    let mut env = Env::default();
    assert_eq!(run("let a = 5", &mut env), Ok(None));
    assert_eq!(run("a", &mut env), Ok(Some(Value::Number(5))));
}

#[test]
fn run_labels_parse_errors() {
    let mut env = Env::default();
    assert_eq!(run("+", &mut env), Err("Parse error: expected {".to_string()));
}

#[test]
fn run_labels_evaluation_errors() {
    let mut env = Env::default();
    assert_eq!(
        run("missing", &mut env),
        Err(
            "Evaluation error: binding with name \u{2018}missing\u{2019} does not exist"
                .to_string()
        ),
    );
}

#[test]
fn unicode_letters_continue_an_identifier() {
    assert_eq!(
        sril::utils::extract_identifier("h\u{e9}llo x"),
        Ok((" x", "h\u{e9}llo")),
    );
}

#[test]
fn environment_lookup_walks_the_chain() {
    let mut env = Env::default();
    env.store_binding("a".to_string(), Value::Number(1));
    let child = env.create_child();
    assert_eq!(
        child.get_binding_value_without_error_msg("a"),
        Some(Value::Number(1)),
    );
    assert_eq!(child.get_binding_value_without_error_msg("b"), None);
}

#[test]
fn store_binding_overwrites_in_place() {
    let mut env = Env::default();
    env.store_binding("a".to_string(), Value::Number(1));
    env.store_binding("a".to_string(), Value::Number(2));
    assert_eq!(env.get_binding_value("a"), Ok(Value::Number(2)));
}
