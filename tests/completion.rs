use mcp_client::completion::{
    CommandBufferState, CompletionCandidate, CompletionContext, CompletionResult,
};

#[test]
fn test_complete_empty() {
    let ctx = CompletionContext::new();
    let result = ctx.complete("");
    assert!(!result.is_empty());
    assert!(result.candidates.iter().any(|c| c.text == "quit"));
}

#[test]
fn test_complete_prefix() {
    let ctx = CompletionContext::new();
    let result = ctx.complete("q");
    assert!(!result.is_empty());
    assert!(result.candidates.iter().all(|c| c.text.starts_with('q')));
}

#[test]
fn test_complete_mcp_subcommand() {
    let ctx = CompletionContext::new();
    let result = ctx.complete("mcp ");
    assert!(!result.is_empty());
    assert!(result.candidates.iter().any(|c| c.text == "connect"));
}

#[test]
fn test_complete_with_dynamic_list() {
    let ctx = CompletionContext::new().with_list(
        "mcp_servers".to_string(),
        vec!["server1".to_string(), "server2".to_string()],
    );

    let result = ctx.complete("mcp connect ");
    assert_eq!(result.len(), 2);
    assert!(result.candidates.iter().any(|c| c.text == "server1"));
}

#[test]
fn test_history_navigation() {
    let ctx = CompletionContext::new()
        .with_history_entry("echo hello".to_string())
        .with_history_entry("mcp list".to_string());

    let (cmd, idx) = ctx.history_up(None).unwrap();
    assert_eq!(cmd, "mcp list");
    assert_eq!(idx, 1);

    let (cmd, idx) = ctx.history_up(Some(idx)).unwrap();
    assert_eq!(cmd, "echo hello");
    assert_eq!(idx, 0);
}

#[test]
fn test_completion_navigation() {
    let result = CompletionResult {
        candidates: vec![
            CompletionCandidate { text: "a".to_string(), description: None },
            CompletionCandidate { text: "b".to_string(), description: None },
            CompletionCandidate { text: "c".to_string(), description: None },
        ],
        selected: 0,
    };

    let result = result.next();
    assert_eq!(result.selected, 1);

    let result = result.next();
    assert_eq!(result.selected, 2);

    let result = result.next();
    assert_eq!(result.selected, 0);

    let result = result.prev();
    assert_eq!(result.selected, 2);
}

#[test]
fn all_commands_are_listed_in_name_order() {
    let ctx = CompletionContext::new();
    let names: Vec<String> = ctx.complete("").candidates.into_iter().map(|c| c.text).collect();
    assert_eq!(names, vec!["clear", "echo", "h", "help", "mcp", "mouse", "q", "quit"]);
}

#[test]
fn prefix_matching_ignores_case_of_input() {
    let ctx = CompletionContext::new();
    let names: Vec<String> = ctx.complete("MO").candidates.into_iter().map(|c| c.text).collect();
    assert_eq!(names, vec!["mouse"]);
    let r = ctx.complete("mcp ru");
    assert_eq!(r.len(), 1);
    assert_eq!(r.selected_text(), Some("run"));
    let r = ctx.complete("mouse ");
    assert_eq!(r.len(), 2);
}

#[test]
fn history_drops_duplicates_and_stops_at_newest() {
    let ctx = CompletionContext::new()
        .with_history_entry("a".to_string())
        .with_history_entry("b".to_string())
        .with_history_entry("a".to_string());
    assert_eq!(ctx.history_len(), 2);
    assert_eq!(ctx.history_up(None), Some(("a".to_string(), 1)));
    assert_eq!(ctx.history_down(Some(0)), Some(("a".to_string(), 1)));
    assert_eq!(ctx.history_down(Some(1)), None);
    assert_eq!(CompletionContext::new().history_up(None), None);
}

#[test]
fn history_keeps_the_newest_hundred() {
    let mut ctx = CompletionContext::new();
    for i in 0..150 {
        ctx = ctx.with_history_entry(format!("cmd{}", i));
    }
    assert_eq!(ctx.history_len(), 100);
    assert_eq!(ctx.history_up(Some(1)), Some(("cmd50".to_string(), 0)));
}

#[test]
fn applying_a_completion_replaces_the_last_word() {
    let ctx = CompletionContext::new();
    let buf = CommandBufferState::new().set_text("mcp con".to_string());
    let r = ctx.complete(&buf.content);
    let buf = buf.with_completion(r).apply_completion();
    assert_eq!(buf.content, "mcp connect");
    assert_eq!(buf.cursor, 11);
    assert!(buf.completion.is_none());

    let buf = CommandBufferState::new().set_text("mcp ".to_string());
    let r = ctx.complete(&buf.content);
    let buf = buf.with_completion(r).apply_completion();
    assert_eq!(buf.content, "mcp list");
}

#[test]
fn command_buffer_editing() {
    let b = CommandBufferState::new().with_char('a').with_char('c').move_left().with_char('b');
    assert_eq!(b.content, "abc");
    assert_eq!(b.cursor, 2);
    let b = b.delete_char();
    assert_eq!(b.content, "ac");
    assert_eq!(b.cursor, 1);
    let b = b.move_end().move_right();
    assert_eq!(b.cursor, 2);
    let b = b.move_start().move_left();
    assert_eq!(b.cursor, 0);
    let b = b.clear();
    assert_eq!(b.content, "");
    let b = b.with_completion(CompletionResult::empty());
    assert!(b.completion.is_none());
}
