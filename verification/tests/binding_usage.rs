use sril::binding_usage::BindingUsage;
use sril::env::Env;
use sril::value::Value;

#[test]
fn binding_usage() {
    assert_eq!(
        BindingUsage::new("a"),
        Ok((
            "",
            BindingUsage {
                name: "a".to_string()
            }
        ))
    )
}

#[test]
fn eval_existing_binding_usage() {
    let mut env = Env::default();
    env.store_binding("foo".to_string(), Value::Number(10));

    assert_eq!(
        BindingUsage {
            name: "foo".to_string(),
        }
        .eval(&mut env),
        Ok(Value::Number(10)),
    );
}

#[test]
fn eval_non_existent_binding_usage() {
    let mut empty_env = Env::default();

    assert_eq!(
        BindingUsage {
            name: "i_dont_exist".to_string(),
        }
        .eval(&mut empty_env),
        Err("binding with name \u{2018}i_dont_exist\u{2019} does not exist".to_string()),
    );
}
