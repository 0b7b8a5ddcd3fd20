use lazypost::capture::extract_captures;
use lazypost::json::{JsonMember, JsonNode, JsonValue};

fn jstr(s: &str) -> JsonValue {
    JsonValue { node: JsonNode::Str(s.to_string()), text: format!("\"{}\"", s) }
}

fn jnum(t: &str) -> JsonValue {
    JsonValue { node: JsonNode::Number, text: t.to_string() }
}

fn jobj(ms: Vec<(&str, JsonValue)>) -> JsonValue {
    let text = format!(
        "{{{}}}",
        ms.iter().map(|(k, v)| format!("\"{}\":{}", k, v.text)).collect::<Vec<_>>().join(",")
    );
    let members = ms.into_iter().map(|(k, v)| JsonMember { key: k.to_string(), value: v }).collect();
    JsonValue { node: JsonNode::Object(members), text }
}

fn jarr(vs: Vec<JsonValue>) -> JsonValue {
    let text = format!("[{}]", vs.iter().map(|v| v.text.clone()).collect::<Vec<_>>().join(","));
    JsonValue { node: JsonNode::Array(vs), text }
}

fn pair(k: &str, v: &str) -> (String, String) {
    (k.to_string(), v.to_string())
}

#[test]
fn captures_nested_string() {
    let t = jobj(vec![("item", jobj(vec![("a", jstr("%item_key%"))]))]);
    let a = jobj(vec![("item", jobj(vec![("a", jstr("abc123"))]))]);
    let out = extract_captures(&t, &a);
    assert_eq!(out, vec![pair("item_key", "abc123")]);
}

#[test]
fn captures_number_as_string() {
    let t = jobj(vec![("count", jstr("%n%"))]);
    let a = jobj(vec![("count", jnum("42"))]);
    let out = extract_captures(&t, &a);
    assert_eq!(out, vec![pair("n", "42")]);
}

#[test]
fn array_index_match() {
    let t = jarr(vec![jobj(vec![("id", jstr("%first_id%"))]), jobj(vec![("id", jstr("%second_id%"))])]);
    let a = jarr(vec![jobj(vec![("id", jstr("A"))]), jobj(vec![("id", jstr("B"))])]);
    let out = extract_captures(&t, &a);
    assert_eq!(out.len(), 2);
}

#[test]
fn ignores_static_mismatch() {
    let t = jobj(vec![("k", jstr("static"))]);
    let a = jobj(vec![("k", jstr("different"))]);
    assert!(extract_captures(&t, &a).is_empty());
}

#[test]
fn bearer_prefix_captures_token() {
    let t = jobj(vec![("auth", jstr("Bearer %key%"))]);
    let a = jobj(vec![("auth", jstr("Bearer abc123"))]);
    let out = extract_captures(&t, &a);
    assert_eq!(out, vec![pair("key", "abc123")]);
}

#[test]
fn multiple_placeholders_in_one_string() {
    let t = jobj(vec![("creds", jstr("%user%:%pass%"))]);
    let a = jobj(vec![("creds", jstr("alice:hunter2"))]);
    let out = extract_captures(&t, &a);
    assert_eq!(out.len(), 2);
    assert_eq!(out[0], pair("user", "alice"));
    assert_eq!(out[1], pair("pass", "hunter2"));
}

#[test]
fn partial_template_against_non_string_is_skipped() {
    let t = jobj(vec![("x", jstr("id-%n%"))]);
    let a = jobj(vec![("x", jnum("42"))]);
    assert!(extract_captures(&t, &a).is_empty());
}

#[test]
fn partial_template_literal_mismatch_skips() {
    let t = jobj(vec![("auth", jstr("Bearer %key%"))]);
    let a = jobj(vec![("auth", jstr("Basic xyz"))]);
    assert!(extract_captures(&t, &a).is_empty());
}

#[test]
fn whole_placeholder_captures_object_as_compact_json() {
    let t = jobj(vec![("item", jstr("%whole%"))]);
    let a = jobj(vec![("item", jobj(vec![("id", jnum("42")), ("slug", jstr("hello"))]))]);
    let out = extract_captures(&t, &a);
    assert_eq!(out, vec![pair("whole", "{\"id\":42,\"slug\":\"hello\"}")]);
}

#[test]
fn readme_example_captures_both_fields() {
    let t = jobj(vec![("item", jobj(vec![("id", jstr("%item_id%")), ("slug", jstr("%slug%"))]))]);
    let a = jobj(vec![("item", jobj(vec![("id", jnum("42")), ("slug", jstr("hello"))]))]);
    let out = extract_captures(&t, &a);
    assert_eq!(out, vec![pair("item_id", "42"), pair("slug", "hello")]);
}

#[test]
fn missing_key_in_response_captures_nothing() {
    let t = jobj(vec![("token", jstr("%t%"))]);
    let a = jobj(vec![("other", jstr("x"))]);
    assert!(extract_captures(&t, &a).is_empty());
}
