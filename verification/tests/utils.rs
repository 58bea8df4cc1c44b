use sril::utils::extract_digits;
use sril::utils::extract_identifier;
use sril::utils::extract_required_whitespaces;
use sril::utils::extract_tag;
use sril::utils::extract_whitespaces;

#[test]
fn extract_one_digit() {
    assert_eq!(extract_digits("1+2"), Ok(("+2", "1")));
}

#[test]
fn extract_multiple_digits() {
    assert_eq!(extract_digits("10-20"), Ok(("-20", "10")));
}

#[test]
fn do_not_extract_digits_when_input_is_invalid() {
    assert_eq!(extract_digits("abcd"), Err("Expected digits".to_string()));
}

#[test]
fn do_not_extract_anything_from_empty_input() {
    assert_eq!(extract_digits(""), Err("Expected digits".to_string()));
}

#[test]
fn extract_digits_with_no_remainder() {
    assert_eq!(extract_digits("100"), Ok(("", "100")));
}

#[test]
fn extract_spaces() {
    assert_eq!(extract_whitespaces("    1"), ("1", "    "));
}

#[test]
fn do_not_extract_spaces_when_input_does_not_start_with_them() {
    assert_eq!(
        extract_required_whitespaces("blah"),
        Err("Expected space".to_string()),
    );
}

#[test]
fn extract_newlines_or_spaces() {
    assert_eq!(extract_whitespaces(" \n   \n\nabc"), ("abc", " \n   \n\n"));
}

#[test]
fn extract_alphanumeric_identifier() {
    assert_eq!(extract_identifier("abcde()"), Ok(("()", "abcde")))
}

#[test]
fn tag_word() {
    assert_eq!(extract_tag("let", "let a"), Ok(" a"));
}

#[test]
fn extract_alphabetic_ident() {
    assert_eq!(extract_identifier("abcdEFG stop"), Ok((" stop", "abcdEFG")));
}

#[test]
fn extract_alphanumeric_ident() {
    assert_eq!(extract_identifier("foobar1()"), Ok(("()", "foobar1")));
}
