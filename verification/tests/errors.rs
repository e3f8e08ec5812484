use ipc_control::errors::{IpcError, SendError};

#[test]
fn ipc_error_messages() {
    assert_eq!(
        IpcError::ArgParse("invalid integer argument: 4x".to_string()).message(),
        "error parsing IPC command argument: invalid integer argument: 4x"
    );
    assert_eq!(IpcError::Io("connection refused".to_string()).message(), "connection refused");
    assert_eq!(IpcError::MissingContext.message(), "shared context not available yet");
    assert_eq!(
        IpcError::MissingNewline.message(),
        "the reply to an IPC command did not end in a newline"
    );
    assert_eq!(
        IpcError::Tokenize("echo 'oops".to_string()).message(),
        "failed to parse IPC command line: echo 'oops"
    );
    assert_eq!(
        IpcError::UnknownCommand(vec!["frob".to_string(), "7".to_string()]).message(),
        "unknown command: frob 7"
    );
}

#[test]
fn send_error_messages() {
    assert_eq!(SendError::Io("timed out".to_string()).message(), "timed out");
    assert_eq!(
        SendError::MissingNewline.message(),
        "the reply to an IPC command did not end in a newline"
    );
    assert_eq!(
        SendError::WrongReply { expected: "ping".to_string(), received: "pong".to_string() }
            .message(),
        "unexpected IPC command reply: expected ping, received pong"
    );
}
