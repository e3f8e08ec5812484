use ipc_control::connection::{encode_reply, Connection, LineOutcome};
use ipc_control::errors::IpcError;
use ipc_control::listener::{accept_failure_notice, connection_end_notice};

#[test]
fn unterminated_quote_buffers_across_lines() {
    let mut conn = Connection::new();
    assert!(matches!(conn.on_line("echo 'hello"), LineOutcome::NeedMore));
    match conn.on_line("world'") {
        LineOutcome::Command(words) => {
            assert_eq!(words, vec!["echo", "hello\nworld"]);
        },
        _ => panic!("expected the buffered command to complete"),
    }
}

#[test]
fn blank_line_is_ignored() {
    let mut conn = Connection::new();
    assert!(matches!(conn.on_line(""), LineOutcome::Ignored));
    assert!(matches!(conn.on_line("   "), LineOutcome::Ignored));
    assert!(conn.session_result().is_none());
}

#[test]
fn successful_tokenization_clears_the_buffer() {
    let mut conn = Connection::new();
    assert!(matches!(conn.on_line("say 'one"), LineOutcome::NeedMore));
    match conn.on_line("two'") {
        LineOutcome::Command(words) => assert_eq!(words, vec!["say", "one\ntwo"]),
        _ => panic!("expected a command"),
    }
    match conn.on_line("ping") {
        LineOutcome::Command(words) => assert_eq!(words, vec!["ping"]),
        _ => panic!("the buffer should have been cleared"),
    }
}

#[test]
fn clean_session_end_reports_nothing() {
    let conn = Connection::new();
    let result = conn.session_result();
    assert!(result.is_none());
    assert!(connection_end_notice(result).is_none());
}

#[test]
fn open_quote_at_session_end_is_the_tokenize_error() {
    let mut conn = Connection::new();
    assert!(matches!(conn.on_line("echo 'oops"), LineOutcome::NeedMore));
    match conn.session_result() {
        Some(IpcError::Tokenize(line)) => assert_eq!(line, "echo 'oops"),
        _ => panic!("expected the tokenize failure to be the result"),
    }
}

#[test]
fn read_failure_is_fatal_io() {
    let conn = Connection::new();
    let e = conn.read_failure("broken pipe".to_string());
    assert_eq!(e.message(), "broken pipe");
    let notice = connection_end_notice(Some(e)).expect("a failure must be reported");
    assert_eq!(notice.label, "IPC client");
    assert_eq!(notice.message, "broken pipe");
}

#[test]
fn accept_failure_is_reported_and_not_fatal() {
    let notice = accept_failure_notice("too many open files".to_string());
    assert_eq!(notice.label, "IPC client");
    assert_eq!(notice.message, "too many open files");
}

#[test]
fn replies_are_newline_terminated() {
    assert_eq!(encode_reply("greet"), "greet\n");
    assert_eq!(encode_reply(""), "\n");
}
