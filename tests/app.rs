use mcp_client::app::{App, Effect, Key};
use mcp_client::events::{McpClientEvent, ToolInfo};
use mcp_client::json::{parse_json, Json};
use mcp_client::mode::Mode;
use mcp_client::ui_state::{Config, McpServerConfig};

fn config() -> Config {
    Config {
        mcp_servers: vec![McpServerConfig { name: "srv".into(), url: "http://h:1/sse".into() }],
    }
}

fn type_command(app: &mut App, text: &str) -> Vec<Effect> {
    let mut effects = app.handle_key(Key::Char(':'), false);
    for c in text.chars() {
        effects.extend(app.handle_key(Key::Char(c), false));
    }
    effects.extend(app.handle_key(Key::Enter, false));
    effects
}

#[test]
fn modes_switch_with_keys() {
    let mut app = App::new(config());
    assert_eq!(app.mode(), Mode::Normal);
    assert_eq!(app.output().len(), 1);
    app.handle_key(Key::Char('i'), false);
    assert_eq!(app.mode(), Mode::Insert);
    for c in "hi".chars() {
        app.handle_key(Key::Char(c), false);
    }
    assert_eq!(app.input_buffer(), "hi");
    assert_eq!(app.cursor_pos(), 2);
    app.handle_key(Key::Enter, false);
    assert_eq!(app.input_buffer(), "");
    assert_eq!(app.output()[1], "→ hi");
    assert_eq!(app.output()[2], "← Echo: hi");
    app.handle_key(Key::Esc, false);
    assert_eq!(app.mode(), Mode::Normal);
    app.handle_key(Key::Char('q'), false);
    assert!(app.should_quit());
}

#[test]
fn commands_produce_effects() {
    let mut app = App::new(config());
    let effects = type_command(&mut app, "mcp connect srv");
    assert_eq!(
        effects,
        vec![Effect::Connect { url: "http://h:1/sse".into(), name: "srv".into() }]
    );
    assert_eq!(app.mode(), Mode::Normal);
    assert_eq!(app.status(), "Connecting to srv...");

    let effects = type_command(&mut app, "mcp connect nope");
    assert!(effects.is_empty());
    assert_eq!(app.status(), "Server 'nope' not found in config.json");

    assert_eq!(type_command(&mut app, "mcp tools"), vec![Effect::ListTools]);

    type_command(&mut app, "mouse off");
    assert!(!app.mouse_enabled());

    type_command(&mut app, "bogus");
    assert_eq!(app.status(), "Error: Unknown command: bogus");

    type_command(&mut app, "clear");
    assert!(app.output().is_empty());

    type_command(&mut app, "quit");
    assert!(app.should_quit());
}

#[test]
fn interactive_server_selection() {
    let mut app = App::new(config());
    assert!(type_command(&mut app, "mcp connect").is_empty());
    assert!(app.server_selection().is_some());
    let effects = app.handle_key(Key::Char('1'), false);
    assert_eq!(
        effects,
        vec![Effect::Connect { url: "http://h:1/sse".into(), name: "srv".into() }]
    );
    assert!(app.server_selection().is_none());
}

#[test]
fn tools_and_runs() {
    let mut app = App::new(config());
    let schema = parse_json(r#"{"properties":{"q":{"type":"string"},"n":{"type":"integer"}},"required":["q"]}"#).unwrap();
    app.handle_mcp_event(McpClientEvent::ToolsListed(vec![ToolInfo {
        name: "search".into(),
        description: "Finds".into(),
        input_schema: schema,
    }]));
    assert_eq!(app.available_tools().len(), 1);
    assert_eq!(app.status(), "Loaded 1 tools");

    let effects = type_command(&mut app, "mcp run search foo 3");
    match &effects[..] {
        [Effect::CallTool { name, arguments }] => {
            assert_eq!(name, "search");
            assert_eq!(arguments.get("q"), Some(&Json::Str("foo".into())));
            assert_eq!(arguments.get("n"), Some(&Json::Int(3)));
        }
        other => panic!("unexpected effects {:?}", other),
    }
    assert!(type_command(&mut app, "mcp run search foo bar baz").is_empty());
    assert_eq!(app.status(), "Error: Too many arguments: expected 2, got 3");

    assert!(type_command(&mut app, "mcp run").is_empty());
    assert_eq!(app.tool_selection().map(|s| s.tools().len()), Some(1));
    let effects = app.handle_key(Key::Enter, false);
    assert!(matches!(&effects[..], [Effect::CallTool { name, .. }] if name == "search"));

    let before = app.output().len();
    type_command(&mut app, "mcp tool search");
    assert!(app.output().len() > before);

    app.handle_mcp_event(McpClientEvent::Error("boom".into()));
    assert_eq!(app.output().last().unwrap(), "❌ [MCP Error] boom");
    app.handle_mcp_event(McpClientEvent::Disconnected);
    assert_eq!(app.status(), "MCP client disconnected");
    assert!(app.available_tools().is_empty());
}

#[test]
fn tab_completes_and_history_recalls() {
    let mut app = App::new(config());
    app.handle_key(Key::Char(':'), false);
    for c in "mcp con".chars() {
        app.handle_key(Key::Char(c), false);
    }
    app.handle_key(Key::Tab, false);
    assert_eq!(app.command_buffer().content, "mcp connect");
    app.handle_key(Key::Esc, false);

    type_command(&mut app, "mouse on");
    app.handle_key(Key::Char(':'), false);
    app.handle_key(Key::Up, false);
    assert_eq!(app.command_buffer().content, "mouse on");
}
