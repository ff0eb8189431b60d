use mcp_client::mode::Mode;
use mcp_client::state::{Buffer, OutputLog, MAX_LOG_LINES};

#[test]
fn test_buffer_insert() {
    let buf = Buffer::new().insert_char('a').insert_char('b');
    assert_eq!(buf.content(), "ab");
    assert_eq!(buf.cursor(), 2);
}

#[test]
fn test_buffer_delete() {
    let buf = Buffer::new().insert_char('a').insert_char('b').delete_char();
    assert_eq!(buf.content(), "a");
    assert_eq!(buf.cursor(), 1);
}

#[test]
fn test_buffer_movement() {
    let buf = Buffer::new()
        .insert_char('a')
        .insert_char('b')
        .move_left()
        .insert_char('c');
    assert_eq!(buf.content(), "acb");
    assert_eq!(buf.cursor(), 2);
}

#[test]
fn test_output_log_append() {
    let log = OutputLog::new()
        .with_message("line1".into())
        .with_message("line2".into());
    assert_eq!(log.lines().len(), 2);
    assert_eq!(log.lines()[0], "line1");
    assert_eq!(log.lines()[1], "line2");
}

#[test]
fn test_output_log_bounds() {
    let mut log = OutputLog::new();
    for i in 0..1500 {
        log = log.with_message(format!("line{}", i));
    }
    assert!(log.lines().len() <= MAX_LOG_LINES);
}

#[test]
fn output_log_keeps_newest_lines() {
    let mut log = OutputLog::new();
    for i in 0..1005 {
        log = log.with_message(format!("line{}", i));
    }
    assert_eq!(log.lines().len(), 1000);
    assert_eq!(log.lines()[0], "line5");
    assert_eq!(log.lines()[999], "line1004");
    assert!(log.clear().lines().is_empty());
}

#[test]
fn buffer_edges() {
    let buf = Buffer::new().delete_char().move_left().move_right();
    assert_eq!(buf.content(), "");
    assert_eq!(buf.cursor(), 0);
    let buf = Buffer::new().insert_char('x').insert_char('y').move_start();
    assert_eq!(buf.cursor(), 0);
    let buf = buf.delete_char().move_end();
    assert_eq!(buf.content(), "xy");
    assert_eq!(buf.cursor(), 2);
    assert_eq!(buf.clear().content(), "");
}

#[test]
fn modes_describe_themselves() {
    assert_eq!(Mode::Normal.name(), "NORMAL");
    assert_eq!(Mode::Insert.name(), "INSERT");
    assert_eq!(Mode::Command.name(), "COMMAND");
    assert!(!Mode::Normal.shows_cursor());
    assert!(Mode::Insert.shows_cursor());
    assert!(Mode::Command.shows_cursor());
    assert_eq!(Mode::Command.help_text(), "ESC:Cancel | ↵:Execute");
}
