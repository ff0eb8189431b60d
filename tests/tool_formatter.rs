use mcp_client::tool_formatter::wrap_text;

#[test]
fn test_wrap_text() {
    let text = "This is a very long text that should be wrapped at the specified width";
    let lines = wrap_text(text, 30, 2);

    assert!(lines.len() > 1);
    for line in &lines {
        assert!(line.len() <= 30);
        assert!(line.starts_with("  "));
    }
}

#[test]
fn wrap_text_exact_lines() {
    let lines = wrap_text("aa bb cc dd", 7, 2);
    assert_eq!(lines, vec!["  aa bb", "  cc dd"]);
    assert!(wrap_text("   ", 10, 2).is_empty());
    assert_eq!(wrap_text("longword x", 4, 2), vec!["  longword", "  x"]);
}

use mcp_client::events::ToolInfo;
use mcp_client::json::{parse_json, Json};
use mcp_client::tool_formatter::{
    extract_param_summary, format_input_schema, format_tool_compact, format_tool_detailed,
    generate_usage_hint,
};

fn json(s: &str) -> Json {
    parse_json(s).expect("test document is JSON")
}

#[test]
fn test_extract_param_summary_simple() {
    let schema = json(r#"{"type":"object","properties":{"query":{"type":"string"}},"required":["query"]}"#);
    let summary = extract_param_summary(&schema);
    assert_eq!(summary, "(query: string)");
}

#[test]
fn test_extract_param_summary_with_optional() {
    let schema = json(
        r#"{"type":"object","properties":{"query":{"type":"string"},"limit":{"type":"integer"}},"required":["query"]}"#,
    );
    let summary = extract_param_summary(&schema);
    assert!(summary.contains("query: string"));
    assert!(summary.contains("[limit]: integer"));
}

#[test]
fn test_generate_usage_hint() {
    let schema = json(
        r#"{"type":"object","properties":{"query":{"type":"string"},"limit":{"type":"integer"}},"required":["query"]}"#,
    );
    let hint = generate_usage_hint("search", &schema);
    assert!(hint.contains(":mcp run search"));
    assert!(hint.contains("<query:string>"));
    assert!(hint.contains("[limit:integer]"));
}

#[test]
fn schema_and_tool_descriptions() {
    let schema = json(
        r#"{"properties":{"mode":{"type":"string","description":"How to run","enum":["fast","slow",3],"default":"fast"},"n":{"type":"integer","minimum":-5,"maximum":10}},"required":["n"]}"#,
    );
    let lines = format_input_schema(&schema);
    assert_eq!(
        lines,
        vec![
            "Parameters:",
            "",
            "  • mode (string, optional)",
            "    How to run",
            "    Allowed values: 'fast', 'slow'",
            "    Default: \"fast\"",
            "",
            "  • n (integer, required)",
            "    (no description)",
            "    Minimum: -5",
            "    Maximum: 10",
        ]
    );
    assert_eq!(format_input_schema(&json("{}")), vec!["Parameters:", "  (no parameters)"]);
    assert_eq!(extract_param_summary(&json(r#"{"properties":{}}"#)), "()");

    let tool = ToolInfo { name: "run".into(), description: "Runs".into(), input_schema: schema };
    assert_eq!(format_tool_compact(&tool), "run: ([mode]: string, n: integer)");
    let d = format_tool_detailed(&tool);
    assert_eq!(d[0], "═".repeat(80));
    assert_eq!(d[1], "🔧 Tool: run");
    assert_eq!(d[5], "  Runs");
    assert_eq!(d[d.len() - 3], "  :mcp run run <n:integer> [mode:string]");
    assert_eq!(d[d.len() - 1], "═".repeat(80));
}
