use ipc_control::client::{check_reply, encode_request, parse_reply};
use ipc_control::connection::{encode_reply, Connection, LineOutcome};
use ipc_control::errors::SendError;
use ipc_control::registry::{ArgKind, Decision, Registry};

#[test]
fn requests_are_quoted_joined_and_newline_terminated() {
    let args: Vec<String> = vec!["ping".to_string()];
    assert_eq!(encode_request(&args), "ping\n");
    let args: Vec<String> = vec!["greet".to_string(), "a b".to_string()];
    assert_eq!(encode_request(&args), "greet 'a b'\n");
}

#[test]
fn reply_newline_is_stripped() {
    assert_eq!(parse_reply("ping\n".to_string()).ok(), Some("ping".to_string()));
}

#[test]
fn reply_without_newline_is_a_protocol_violation() {
    assert!(matches!(parse_reply("ping".to_string()), Err(SendError::MissingNewline)));
    assert!(matches!(parse_reply(String::new()), Err(SendError::MissingNewline)));
}

#[test]
fn unexpected_echo_is_a_wrong_reply() {
    let expected = "ping".to_string();
    match check_reply(&expected, "pong".to_string()) {
        Err(SendError::WrongReply { expected, received }) => {
            assert_eq!(expected, "ping");
            assert_eq!(received, "pong");
        },
        _ => panic!("expected a wrong-reply failure"),
    }
    assert_eq!(check_reply(&expected, "ping".to_string()).ok(), Some("ping".to_string()));
}

/// One whole round trip through the protocol logic, without the socket:
/// the client encodes `ping`, the connection tokenizes it, the registry
/// dispatches it, the handler succeeds, and the client gets `ping` back.
#[test]
fn ping_round_trip_echoes_the_command_name() {
    let mut reg = Registry::new();
    assert!(reg.register("ping", vec![]));

    let args: Vec<String> = vec!["ping".to_string()];
    let request = encode_request(&args);
    let (line, rest) = request.split_once('\n').expect("requests end in a newline");
    assert!(rest.is_empty());

    let mut conn = Connection::new();
    let reply_line = match conn.on_line(line) {
        LineOutcome::Command(tokens) => match reg.decide(&tokens) {
            Decision::Run { cmd, args } => {
                assert!(args.is_empty());
                let handler_result: Result<(), String> = Ok(());
                encode_reply(reg.reply_for(cmd, handler_result).as_str())
            },
            _ => panic!("ping should dispatch"),
        },
        _ => panic!("the request line should tokenize"),
    };

    let body = parse_reply(reply_line).expect("the reply ends in a newline");
    let echoed = check_reply(&"ping".to_string(), body).expect("the echo should match");
    assert_eq!(echoed, "ping");
}

#[test]
fn greet_round_trip_with_a_quoted_argument() {
    let mut reg = Registry::new();
    assert!(reg.register("greet", vec![ArgKind::Str]));

    let args: Vec<String> = vec!["greet".to_string(), "a b".to_string()];
    let request = encode_request(&args);
    let line = request.strip_suffix('\n').expect("requests end in a newline");

    let mut conn = Connection::new();
    match conn.on_line(line) {
        LineOutcome::Command(tokens) => {
            assert_eq!(tokens, vec!["greet", "a b"]);
            match reg.decide(&tokens) {
                Decision::Run { cmd, .. } => {
                    assert_eq!(reg.reply_for(cmd, Ok(())), "greet");
                },
                _ => panic!("greet should dispatch"),
            }
        },
        _ => panic!("the request line should tokenize"),
    }
}
