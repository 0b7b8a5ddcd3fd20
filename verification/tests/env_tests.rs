use lazypost::env::{substitute, substitute_required};
use lazypost::strmap::StrMap;

fn vars(pairs: &[(&str, &str)]) -> StrMap {
    let mut m = StrMap::new();
    for (k, v) in pairs {
        m.insert((*k).to_string(), (*v).to_string());
    }
    m
}

#[test]
fn env_empty_env_missing_var_becomes_empty() {
    let empty = StrMap::new();
    assert_eq!(substitute("{{x}}", &empty), "");
}

#[test]
fn env_substitutes_known_variable() {
    let v = vars(&[("host", "api.example.com")]);
    assert_eq!(substitute("https://{{host}}/v1", &v), "https://api.example.com/v1",);
}

#[test]
fn env_missing_variable_becomes_empty() {
    let v = vars(&[("a", "1")]);
    assert_eq!(substitute("{{a}}-{{b}}", &v), "1-");
}

#[test]
fn env_allows_internal_whitespace() {
    let v = vars(&[("x", "ok")]);
    assert_eq!(substitute("[{{  x  }}]", &v), "[ok]");
}

#[test]
fn env_ignores_malformed_placeholders() {
    let v = vars(&[("x", "ok")]);
    assert_eq!(substitute("{x} {{x", &v), "{x} {{x");
}

#[test]
fn required_missing_var_errors() {
    let empty = StrMap::new();
    assert!(substitute_required("{{x}}", &empty).is_err());
}

#[test]
fn required_empty_var_errors() {
    let v = vars(&[("x", "")]);
    assert!(substitute_required("{{x}}", &v).is_err());
}

#[test]
fn required_substitutes_known_variable() {
    let v = vars(&[("x", "1"), ("y", "2")]);
    assert_eq!(substitute_required("a{{x}}b{{y}}", &v).unwrap(), "a1b2");
}

#[test]
fn no_placeholders_passes_through_unchanged() {
    let v = vars(&[("x", "1")]);
    assert_eq!(substitute("plain string", &v), "plain string");
    assert_eq!(substitute_required("plain string", &v).unwrap(), "plain string");
}

#[test]
fn substitute_multiple_occurrences_of_same_var() {
    let v = vars(&[("x", "hi")]);
    assert_eq!(substitute("{{x}} {{x}}", &v), "hi hi");
}

#[test]
fn required_error_lists_all_missing_vars() {
    let empty = StrMap::new();
    let err = substitute_required("{{a}} and {{b}}", &empty).unwrap_err();
    assert!(err.contains('a'), "got: {err}");
    assert!(err.contains('b'), "got: {err}");
}

#[test]
fn required_error_reports_both_missing_and_empty() {
    let v = vars(&[("empty_var", "")]);
    let err = substitute_required("{{missing_var}} {{empty_var}}", &v).unwrap_err();
    assert!(err.contains("missing env vars"), "got: {err}");
    assert!(err.contains("empty env vars"), "got: {err}");
}

#[test]
fn substitute_dots_and_dashes_in_name() {
    let v = vars(&[("api.base-url", "http://localhost")]);
    assert_eq!(substitute("{{api.base-url}}/v1", &v), "http://localhost/v1");
}

#[test]
fn required_error_exact_text_for_missing() {
    let empty = StrMap::new();
    let err = substitute_required("{{a}} and {{b}}", &empty).unwrap_err();
    assert!(err.starts_with("missing env vars"), "got: {err}");
}
