use mcp_client::classify::{chunk_messages, classify, notice, parse_tools};
use mcp_client::events::{McpClientEvent, ToolInfo};
use mcp_client::format::{break_long_line, chunk_lines, split_for_display, truncate_json_display};
use mcp_client::json::{compact_json, parse_json, pretty_json, Json};
use mcp_client::rpc::{request, IdAllocator, PendingTable};
use mcp_client::session::{Action, Phase, Session};
use mcp_client::sse::SseParser;
use mcp_client::MAX_DISPLAY_LINES;

fn json(s: &str) -> Json {
    parse_json(s).expect("test document is JSON")
}

fn frames(p: &mut SseParser, chunk: &str) -> Vec<(String, String)> {
    p.feed(chunk).into_iter().map(|f| (f.event, f.data)).collect()
}

#[test]
fn sse_split_chunks_give_same_frame() {
    let whole = "event: endpoint\ndata: /ep\n\n";
    let mut a = SseParser::new();
    let one = frames(&mut a, whole);
    assert_eq!(one, vec![("endpoint".to_string(), "/ep".to_string())]);

    let mut b = SseParser::new();
    let first = frames(&mut b, "event: endpoint\ndat");
    assert!(first.is_empty());
    let second = frames(&mut b, "a: /ep\n\n");
    assert_eq!(second, one);
}

#[test]
fn sse_joins_data_lines_and_skips_empty_frames() {
    let mut p = SseParser::new();
    let got = frames(&mut p, "data: a\ndata:  b \r\n\n: comment\n\nevent: x\n\ndata: c\n");
    assert_eq!(got, vec![("".to_string(), "a\nb".to_string())]);
    let got = frames(&mut p, "\n");
    assert_eq!(got, vec![("".to_string(), "c".to_string())]);
}

#[test]
fn result_formatter_truncates_long_payloads() {
    let text: String = (0..500).map(|i| format!("line {}", i)).collect::<Vec<_>>().join("\n");
    let c = chunk_lines(&text, MAX_DISPLAY_LINES);
    assert!(c.truncated);
    assert_eq!(c.lines.len(), 200);
    assert_eq!(c.total, 500);
    assert_eq!(c.lines[199], "line 199");
    assert_eq!(notice(c.total), "⚠️  Response truncated: showing 200 of 500 lines");

    let mut out = Vec::new();
    chunk_messages(&mut out, &text);
    assert_eq!(out.len(), 202);
    assert_eq!(out[200], McpClientEvent::Message(String::new()));
    assert_eq!(
        out[201],
        McpClientEvent::Message("⚠️  Response truncated: showing 200 of 500 lines".into())
    );

    let short = chunk_lines("a\nb", 200);
    assert!(!short.truncated);
    assert_eq!(short.lines, vec!["a", "b"]);
}

#[test]
fn truncate_json_display_cases() {
    assert_eq!(truncate_json_display("a\nb\nc", 5), ("a\nb\nc".to_string(), false));
    assert_eq!(truncate_json_display("a\nb\nc", 2), ("a\nb".to_string(), true));
    assert_eq!(truncate_json_display("", 0), ("".to_string(), false));
}

#[test]
fn long_lines_are_broken_for_display() {
    assert_eq!(break_long_line("aaa bbb ccc", 7), vec!["aaa bbb", "ccc"]);
    assert_eq!(break_long_line("abcdefghij", 4), vec!["abcd", "efgh", "ij"]);
    assert_eq!(break_long_line("   ", 4), vec![""]);
    assert_eq!(split_for_display("short\nthis is long", 7), vec!["short", "this is", "long"]);
}

#[test]
fn tools_parsing_skips_malformed_entries() {
    let items = match json(
        r#"[{"name":"a","description":"da","inputSchema":{"type":"object"}},
            {"name":"b","inputSchema":{}},
            {"name":"c","description":"dc","inputSchema":{}}]"#,
    ) {
        Json::Array(v) => v,
        _ => panic!("array expected"),
    };
    let n = items.len();
    let tools = parse_tools(items);
    assert_eq!(tools.len(), n - 1);
    assert_eq!(tools[0].name, "a");
    assert_eq!(tools[0].input_schema, json(r#"{"type":"object"}"#));
    assert_eq!(tools[1].summary(), "c: dc");
}

#[test]
fn classify_resolves_only_matching_entry() {
    let mut pending = PendingTable::new();
    pending.register(3, "tools/call".into());
    pending.register(4, "tools/list".into());
    let evs = classify(json(r#"{"jsonrpc":"2.0","id":3,"result":{"content":[{"type":"text","text":"hi\nthere"}]}}"#), &mut pending);
    assert!(!pending.contains(3));
    assert!(pending.contains(4));
    assert_eq!(pending.len(), 1);
    assert_eq!(
        evs,
        vec![
            McpClientEvent::Message("📋 Tool result:".into()),
            McpClientEvent::Message("hi".into()),
            McpClientEvent::Message("there".into()),
        ]
    );
}

#[test]
fn classify_tools_error_and_notifications() {
    let mut pending = PendingTable::new();
    let evs = classify(
        json(r#"{"id":2,"result":{"tools":[{"name":"t","description":"d","inputSchema":{}}]}}"#),
        &mut pending,
    );
    assert_eq!(
        evs,
        vec![McpClientEvent::ToolsListed(vec![ToolInfo {
            name: "t".into(),
            description: "d".into(),
            input_schema: json("{}"),
        }])]
    );
    let evs = classify(json(r#"{"id":5,"error":{"code":-1}}"#), &mut pending);
    assert_eq!(evs[0], McpClientEvent::Error("RPC error:".into()));
    assert!(evs.len() > 1);
    let evs = classify(json(r#"{"method":"notifications/tools/list_changed"}"#), &mut pending);
    assert_eq!(
        evs,
        vec![McpClientEvent::Message("🔔 Tools list changed - use :mcp tools to refresh".into())]
    );
    let evs = classify(json(r#"{"method":"ping"}"#), &mut pending);
    assert_eq!(evs, vec![McpClientEvent::Message("🔔 Notification: ping".into())]);
    assert!(classify(json("{}"), &mut pending).is_empty());
    let evs = classify(json(r#"{"id":6,"result":{"ok":true}}"#), &mut pending);
    assert_eq!(evs, vec![
        McpClientEvent::Message("{".into()),
        McpClientEvent::Message("  \"ok\": true".into()),
        McpClientEvent::Message("}".into()),
    ]);
}

#[test]
fn request_documents_are_json_rpc() {
    let r = request(7, "tools/list", json("{}"));
    let back = json(&compact_json(&r));
    assert_eq!(back.get("jsonrpc").and_then(|x| x.as_str()), Some("2.0"));
    assert_eq!(back.get("id").and_then(|x| x.as_i64()), Some(7));
    assert_eq!(back.get("method").and_then(|x| x.as_str()), Some("tools/list"));
    assert_eq!(back.get("params"), Some(&json("{}")));
    assert!(pretty_json(&r).contains("\"method\": \"tools/list\""));
}

#[test]
fn ids_increase_from_one() {
    let mut ids = IdAllocator::new();
    let a = ids.allocate();
    let b = ids.allocate();
    let c = ids.allocate();
    assert_eq!((a, b, c), (1, 2, 3));
    assert!(!ids.exhausted());
}

fn posts(actions: &[Action]) -> Vec<(String, String, u64)> {
    actions
        .iter()
        .filter_map(|a| match a {
            Action::Post { url, body, delay_ms } => Some((url.clone(), body.clone(), *delay_ms)),
            _ => None,
        })
        .collect()
}

fn events(actions: &[Action]) -> Vec<&McpClientEvent> {
    actions
        .iter()
        .filter_map(|a| match a {
            Action::Emit(e) => Some(e),
            _ => None,
        })
        .collect()
}

#[test]
fn end_to_end_handshake_lists_tools() {
    let mut s = Session::new("http://h:8080/sse".to_string());
    let a = s.on_stream_opened(200);
    assert_eq!(events(&a), vec![&McpClientEvent::Connected]);
    assert_eq!(*s.phase(), Phase::AwaitingEndpoint);

    let a = s.on_chunk("event: endpoint\ndata: /messages?x=1\n\n");
    assert_eq!(s.endpoint().map(|e| e.as_str()), Some("/messages?x=1"));
    assert_eq!(*s.phase(), Phase::Initializing);
    let p = posts(&a);
    assert_eq!(p.len(), 1);
    assert_eq!(p[0].0, "http://h:8080/messages?x=1");
    assert_eq!(p[0].2, 100);
    let body = json(&p[0].1);
    assert_eq!(body.get("method").and_then(|m| m.as_str()), Some("initialize"));
    assert_eq!(body.get("id").and_then(|m| m.as_i64()), Some(1));

    let a = s.on_chunk("data: {\"jsonrpc\":\"2.0\",\"id\":1,\"result\":{}}\n\n");
    assert_eq!(*s.phase(), Phase::Ready);
    assert_eq!(events(&a), vec![&McpClientEvent::Message("MCP session initialized".into())]);
    let p = posts(&a);
    assert_eq!(p.len(), 1);
    let body = json(&p[0].1);
    assert_eq!(body.get("method").and_then(|m| m.as_str()), Some("tools/list"));
    assert_eq!(body.get("id").and_then(|m| m.as_i64()), Some(2));

    let a = s.on_chunk(
        "data: {\"jsonrpc\":\"2.0\",\"id\":2,\"result\":{\"tools\":[{\"name\":\"echo\",\"description\":\"Echoes\",\"inputSchema\":{}}]}}\n\n",
    );
    let ev = events(&a);
    assert_eq!(ev.len(), 1);
    match ev[0] {
        McpClientEvent::ToolsListed(t) => {
            assert_eq!(t.len(), 1);
            assert_eq!(t[0].name, "echo");
        }
        other => panic!("unexpected events {:?}", other),
    }

    let (id, a) = s.call_tool("echo", json(r#"{"text":"hi"}"#));
    assert_eq!(id, Some(3));
    let p = posts(&a);
    assert_eq!(p[0].0, "http://h:8080/messages?x=1");
    assert_eq!(p[0].2, 0);
    let body = json(&p[0].1);
    assert_eq!(body.get("params").and_then(|x| x.get("name")).and_then(|x| x.as_str()), Some("echo"));
}

#[test]
fn end_to_end_stream_closed_without_endpoint() {
    let mut s = Session::new("http://h:8080/sse".to_string());
    s.on_stream_opened(200);
    let a = s.on_chunk("data: hello\n\n");
    assert_eq!(events(&a), vec![&McpClientEvent::Message("hello".into())]);
    let a = s.on_stream_end();
    assert_eq!(
        events(&a),
        vec![
            &McpClientEvent::Error("Stream ended before the session endpoint was announced".into()),
            &McpClientEvent::Disconnected,
        ]
    );
    assert_eq!(*s.phase(), Phase::Terminated);
    assert!(s.on_stream_end().is_empty());
    assert!(s.on_shutdown().is_empty());
}

#[test]
fn failures_end_the_attempt_once() {
    let mut s = Session::new("http://h/sse".to_string());
    let a = s.on_stream_opened(503);
    assert_eq!(
        events(&a),
        vec![&McpClientEvent::Error("HTTP connect failed: 503".into()), &McpClientEvent::Disconnected]
    );
    let mut s = Session::new("http://h/sse".to_string());
    let a = s.on_connect_failed("refused");
    assert_eq!(events(&a)[0], &McpClientEvent::Error("Connect error: refused".into()));
    let mut s = Session::new("http://h/sse".to_string());
    s.on_stream_opened(200);
    let a = s.on_stream_error("reset");
    assert_eq!(events(&a)[1], &McpClientEvent::Disconnected);
    assert!(s.on_chunk("event: endpoint\ndata: /x\n\n").is_empty());
    assert!(s.on_post_status(500).is_empty());
    assert!(s.on_post_failed("late").is_empty());
    let live = Session::new("http://h/sse".to_string());
    assert_eq!(events(&live.on_post_status(500)), vec![&McpClientEvent::Error("POST HTTP error: 500".into())]);
    assert!(live.on_post_status(202).is_empty());
}

#[test]
fn send_before_endpoint_uses_base_url() {
    let mut s = Session::new("http://h/sse".to_string());
    let (id, a) = s.list_tools();
    assert_eq!(id, Some(2));
    assert_eq!(
        events(&a),
        vec![&McpClientEvent::Debug("No session endpoint, using base URL for request".into())]
    );
    assert_eq!(posts(&a)[0].0, "http://h/sse");
    let (id2, _) = s.list_tools();
    assert!(id2.unwrap() > id.unwrap());
}

#[test]
fn initialize_keeps_id_one_after_early_requests() {
    let mut s = Session::new("http://h:8080/sse".to_string());
    s.on_stream_opened(200);
    let (early, _) = s.call_tool("t", json("{}"));
    assert_eq!(early, Some(2));
    let a = s.on_chunk("event: endpoint\ndata: /m\n\n");
    let p = posts(&a);
    let body = json(&p[0].1);
    assert_eq!(body.get("method").and_then(|m| m.as_str()), Some("initialize"));
    assert_eq!(body.get("id").and_then(|m| m.as_i64()), Some(1));
    let a = s.on_chunk("data: {\"id\":1,\"result\":{}}\n\n");
    assert_eq!(*s.phase(), Phase::Ready);
    let body = json(&posts(&a)[0].1);
    assert_eq!(body.get("id").and_then(|m| m.as_i64()), Some(3));
}

#[test]
fn session_split_chunks_match_whole() {
    let whole = "event: endpoint\ndata: /ep\n\n";
    let mut a = Session::new("http://h/sse".to_string());
    a.on_stream_opened(200);
    let mut split = a.on_chunk("event: endp");
    assert!(split.is_empty());
    split.extend(a.on_chunk("oint\ndata: /ep\n\n"));
    let mut b = Session::new("http://h/sse".to_string());
    b.on_stream_opened(200);
    let one = b.on_chunk(whole);
    assert_eq!(split, one);
    assert_eq!(a.endpoint().map(|e| e.as_str()), Some("/ep"));
    assert_eq!(b.endpoint().map(|e| e.as_str()), Some("/ep"));
}

#[test]
fn plain_text_results_get_their_own_notice() {
    let text: String = (0..250).map(|i| format!("row {}", i)).collect::<Vec<_>>().join("\n");
    let mut pending = PendingTable::new();
    let doc = format!(
        "{{\"id\":9,\"result\":{{\"content\":[{{\"text\":{}}}]}}}}",
        compact_json(&Json::Str(text.clone()))
    );
    let evs = classify(json(&doc), &mut pending);
    assert_eq!(evs.len(), 1 + 200 + 1);
    assert_eq!(
        evs[201],
        McpClientEvent::Message("⚠️  Output truncated: 200 of 250 lines shown".into())
    );
}

#[test]
fn sse_joins_every_data_line_even_empty_ones() {
    let mut p = SseParser::new();
    assert_eq!(frames(&mut p, "data:\ndata: x\n\n"), vec![("".to_string(), "\nx".to_string())]);
    assert_eq!(frames(&mut p, "data: a\ndata:\n\n"), vec![("".to_string(), "a\n".to_string())]);
    assert!(frames(&mut p, "data:\n\n").is_empty());
}

#[test]
fn responses_are_told_by_an_id_of_any_type() {
    let mut pending = PendingTable::new();
    pending.register(4, "tools/list".into());
    let evs = classify(json(r#"{"id":"abc","error":{"code":1}}"#), &mut pending);
    assert_eq!(evs[0], McpClientEvent::Error("RPC error:".into()));
    assert!(pending.contains(4));
    let evs = classify(json(r#"{"id":null,"method":"ping"}"#), &mut pending);
    assert!(evs.is_empty());
}

#[test]
fn decoded_messages_drive_the_session() {
    let mut s = Session::new("http://h/sse".to_string());
    s.on_stream_opened(200);
    s.on_chunk("event: endpoint\ndata: /m\n\n");
    let a = s.on_message(json(r#"{"jsonrpc":"2.0","id":1,"result":{}}"#));
    assert_eq!(*s.phase(), Phase::Ready);
    let body = json(&posts(&a)[0].1);
    assert_eq!(body.get("method").and_then(|m| m.as_str()), Some("tools/list"));
    let a = s.on_message(json(r#"{"id":1,"result":{}}"#));
    assert!(posts(&a).is_empty());
    assert_eq!(events(&a), vec![&McpClientEvent::Message("{}".into())]);
}
