use sril::binding_def::BindingDef;
use sril::expression::Expression;
use sril::expression::Number;
use sril::expression::Operator;

#[test]
fn binding_def_parse_binding_def() {
    assert_eq!(
        BindingDef::new("let a = 10 / 2"),
        Ok((
            "",
            BindingDef {
                name: "a".to_string(),
                val: Expression::Operation {
                    lhs: Number(10),
                    rhs: Number(2),
                    op: Operator::Div,
                },
            },
        ),)
    );
}

#[test]
fn cannot_parse_binding_def_without_space_after_let() {
    assert_eq!(
        BindingDef::new("letaaa=1+2"),
        Err("Expected space".to_string()),
    );
}
