use mcp_client::command::{Command, CommandError};

#[test]
fn test_quit_commands() {
    assert_eq!(Command::parse("q"), Ok(Command::Quit));
    assert_eq!(Command::parse("quit"), Ok(Command::Quit));
    assert_eq!(Command::parse("  q  "), Ok(Command::Quit));
}

#[test]
fn test_clear_command() {
    assert_eq!(Command::parse("clear"), Ok(Command::Clear));
}

#[test]
fn test_echo_command() {
    assert_eq!(
        Command::parse("echo hello world"),
        Ok(Command::Echo("hello world".into()))
    );
}

#[test]
fn test_mcp_connect_command() {
    assert_eq!(
        Command::parse("mcp connect pcbvi-mcp-server"),
        Ok(Command::McpConnect(Some("pcbvi-mcp-server".into())))
    );
    assert_eq!(Command::parse("mcp connect"), Ok(Command::McpConnect(None)));
}

#[test]
fn test_mcp_tools_command() {
    assert_eq!(Command::parse("mcp tools"), Ok(Command::McpTools));
}

#[test]
fn test_mcp_tool_command() {
    assert_eq!(
        Command::parse("mcp tool search_components"),
        Ok(Command::McpTool("search_components".into()))
    );
}

#[test]
fn test_mcp_run_command() {
    assert_eq!(Command::parse("mcp run"), Ok(Command::McpRun(None, vec![])));
    assert_eq!(
        Command::parse("mcp run get_view_state"),
        Ok(Command::McpRun(Some("get_view_state".into()), vec![]))
    );
}

#[test]
fn test_mcp_status_command() {
    assert_eq!(Command::parse("mcp status"), Ok(Command::McpStatus));
}

#[test]
fn test_mouse_commands() {
    assert_eq!(Command::parse("mouse on"), Ok(Command::Mouse(true)));
    assert_eq!(Command::parse("mouse off"), Ok(Command::Mouse(false)));
}

#[test]
fn empty_and_blank_lines_are_refused() {
    assert_eq!(Command::parse(""), Err(CommandError::Empty));
    assert_eq!(Command::parse("   \t "), Err(CommandError::Empty));
}

#[test]
fn echo_without_argument_is_invalid() {
    let e = Command::parse("echo").unwrap_err();
    assert_eq!(e, CommandError::InvalidSyntax("echo requires an argument".into()));
    assert_eq!(e.message(), "Invalid syntax: echo requires an argument");
}

#[test]
fn unknown_command_names_first_word() {
    let e = Command::parse("frobnicate now").unwrap_err();
    assert_eq!(e, CommandError::Unknown("frobnicate".into()));
    assert_eq!(e.message(), "Unknown command: frobnicate");
    assert_eq!(Command::parse("mcp"), Err(CommandError::Unknown("mcp".into())));
    assert_eq!(Command::parse("mcp connect a b"), Err(CommandError::Unknown("mcp".into())));
}

#[test]
fn run_keeps_arguments_and_aliases_work() {
    assert_eq!(
        Command::parse("mcp run search  foo 10"),
        Ok(Command::McpRun(Some("search".into()), vec!["foo".into(), "10".into()]))
    );
    assert_eq!(Command::parse("mcp cn srv"), Ok(Command::McpConnect(Some("srv".into()))));
    assert_eq!(Command::parse("h"), Ok(Command::Help));
    assert_eq!(Command::parse("mcp list"), Ok(Command::McpList));
    assert_eq!(Command::parse("echo  a   b"), Ok(Command::Echo("a b".into())));
}
