use mcp_client::args::{args_to_json, convert_value, usage_hint, ArgsError};
use mcp_client::json::{compact_json, parse_json, Json};

fn json(s: &str) -> Json {
    parse_json(s).expect("test document is JSON")
}

fn same(a: &Json, b: &Json) -> bool {
    compact_json(a) == compact_json(b)
}

#[test]
fn test_simple_string_param() {
    let schema = json(r#"{"type":"object","properties":{"query":{"type":"string"}},"required":["query"]}"#);
    let args = vec!["U*".to_string()];
    let result = args_to_json(&args, &schema).unwrap();
    assert!(same(&result, &json(r#"{"query":"U*"}"#)));
}

#[test]
fn test_string_and_integer() {
    let schema = json(
        r#"{"type":"object","properties":{"query":{"type":"string"},"limit":{"type":"integer","nullable":true}},"required":["query"]}"#,
    );
    let args = vec!["U*".to_string(), "50".to_string()];
    let result = args_to_json(&args, &schema).unwrap();
    assert!(same(&result, &json(r#"{"query":"U*","limit":50}"#)));
}

#[test]
fn test_optional_param_omitted() {
    let schema = json(
        r#"{"type":"object","properties":{"query":{"type":"string"},"limit":{"type":"integer","nullable":true}},"required":["query"]}"#,
    );
    let args = vec!["U*".to_string()];
    let result = args_to_json(&args, &schema).unwrap();
    assert!(same(&result, &json(r#"{"query":"U*"}"#)));
}

#[test]
fn test_missing_required() {
    let schema = json(r#"{"type":"object","properties":{"query":{"type":"string"}},"required":["query"]}"#);
    let args: Vec<String> = vec![];
    let result = args_to_json(&args, &schema);
    assert!(matches!(result, Err(ArgsError::MissingRequired(_))));
}

#[test]
fn test_invalid_integer() {
    let schema = json(r#"{"type":"object","properties":{"limit":{"type":"integer"}},"required":["limit"]}"#);
    let args = vec!["not_a_number".to_string()];
    let result = args_to_json(&args, &schema);
    assert!(matches!(result, Err(ArgsError::InvalidInteger { .. })));
}

#[test]
fn test_boolean_conversion() {
    let schema = json(r#"{"type":"object","properties":{"enabled":{"type":"boolean"}},"required":["enabled"]}"#);
    let result = args_to_json(&["true".to_string()], &schema).unwrap();
    assert!(same(&result, &json(r#"{"enabled":true}"#)));
    let result = args_to_json(&["false".to_string()], &schema).unwrap();
    assert!(same(&result, &json(r#"{"enabled":false}"#)));
}

#[test]
fn test_usage_hint() {
    let schema = json(
        r#"{"type":"object","properties":{"query":{"type":"string","description":"Search pattern"},"limit":{"type":"integer","nullable":true}},"required":["query"]}"#,
    );
    let hint = usage_hint("search_components", &schema);
    assert!(hint.contains("search_components"));
    assert!(hint.contains("query"));
    assert!(hint.contains("limit"));
}

#[test]
fn usage_hint_exact() {
    let schema = json(
        r#"{"properties":{"query":{"type":"string"},"limit":{"type":"integer"},"x":{}},"required":["query"]}"#,
    );
    assert_eq!(
        usage_hint("search", &schema),
        ":mcp run search <query:string> [limit:integer] [x:value]"
    );
    assert_eq!(usage_hint("t", &json("{}")), ":mcp run t");
}

#[test]
fn argument_errors() {
    let schema = json(r#"{"properties":{"a":{"type":"string"}}}"#);
    assert_eq!(
        args_to_json(&["1".to_string(), "2".to_string()], &schema),
        Err(ArgsError::TooManyArgs { expected: 1, got: 2 })
    );
    assert_eq!(
        args_to_json(&[], &json(r#"{"type":"object"}"#)),
        Err(ArgsError::InvalidSchema("Missing 'properties' field".into()))
    );
    let b = json(r#"{"type":"boolean"}"#);
    assert_eq!(
        convert_value("maybe", &b, "flag"),
        Err(ArgsError::InvalidBoolean { param: "flag".into(), value: "maybe".into() })
    );
    assert_eq!(convert_value("YES", &b, "flag"), Ok(Json::Bool(true)));
    assert_eq!(convert_value("0", &b, "flag"), Ok(Json::Bool(false)));
    let o = json(r#"{"type":"array"}"#);
    assert_eq!(
        convert_value("[1,", &o, "xs"),
        Err(ArgsError::InvalidSchema("Cannot parse '[1,' as array".into()))
    );
    assert!(same(&convert_value("[1,2]", &o, "xs").unwrap(), &json("[1,2]")));
    let i = json(r#"{"type":"integer"}"#);
    assert_eq!(convert_value("-42", &i, "n"), Ok(Json::Int(-42)));
    assert_eq!(convert_value("+7", &i, "n"), Ok(Json::Int(7)));
    assert!(convert_value("99999999999999999999", &i, "n").is_err());
    let n = json(r#"{"type":"number"}"#);
    assert!(same(&convert_value("2.5", &n, "x").unwrap(), &json("2.5")));
    assert!(convert_value("abc", &n, "x").is_err());
    assert_eq!(convert_value("hi", &json("{}"), "s"), Ok(Json::Str("hi".into())));
}

#[test]
fn argument_error_messages() {
    assert_eq!(
        ArgsError::TooManyArgs { expected: 1, got: 12 }.message(),
        "Too many arguments: expected 1, got 12"
    );
    assert_eq!(
        ArgsError::InvalidInteger { param: "n".into(), value: "x".into() }.message(),
        "Invalid integer value for 'n': x"
    );
    assert_eq!(ArgsError::MissingRequired("q".into()).message(), "Missing required parameter: q");
}
