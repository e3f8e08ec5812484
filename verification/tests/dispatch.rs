use ipc_control::errors::IpcError;
use ipc_control::ready_cell::ReadyCell;
use ipc_control::registry::{
    kebab_case, require_context, ArgKind, ArgValue, Decision, Registry,
};

fn toks(words: &[&str]) -> Vec<String> {
    words.iter().map(|s| s.to_string()).collect()
}

fn demo_registry() -> Registry {
    let mut reg = Registry::new();
    assert!(reg.register("greet", vec![ArgKind::Str]));
    assert!(reg.register("add", vec![ArgKind::Int, ArgKind::Int]));
    assert!(reg.register("set_flag", vec![ArgKind::Ident]));
    assert!(reg.register("ping", vec![]));
    reg
}

#[test]
fn kebab_case_replaces_underscores() {
    assert_eq!(kebab_case("set_flag"), "set-flag");
    assert_eq!(kebab_case("ping"), "ping");
}

#[test]
fn register_refuses_duplicates_and_bad_names() {
    let mut reg = demo_registry();
    assert!(!reg.register("greet", vec![]));
    assert!(!reg.register("", vec![]));
    assert!(!reg.register("has space", vec![]));
}

#[test]
fn dispatch_known_command_with_string_argument() {
    let reg = demo_registry();
    match reg.decide(&toks(&["greet", "a b"])) {
        Decision::Run { cmd, args } => {
            assert_eq!(args.len(), 1);
            match &args[0] {
                ArgValue::Str(s) => assert_eq!(s, "a b"),
                _ => panic!("expected a string argument"),
            }
            assert_eq!(reg.reply_for(cmd, Ok(())), "greet");
        },
        _ => panic!("expected the command to run"),
    }
}

#[test]
fn dispatch_missing_argument_is_an_arg_parse_reply() {
    let reg = demo_registry();
    match reg.decide(&toks(&["greet"])) {
        Decision::Reject { error, .. } => match error {
            IpcError::ArgParse(_) => {
                assert_eq!(
                    error.message(),
                    "error parsing IPC command argument: wrong number of arguments"
                );
            },
            _ => panic!("expected an argument-parse failure"),
        },
        _ => panic!("expected a reject"),
    }
}

#[test]
fn dispatch_unknown_command_terminates_with_the_tokens() {
    let reg = demo_registry();
    match reg.decide(&toks(&["unknown-cmd"])) {
        Decision::Terminate(IpcError::UnknownCommand(ts)) => {
            assert_eq!(ts, vec!["unknown-cmd"]);
        },
        _ => panic!("expected termination with the unknown command"),
    }
}

#[test]
fn dispatch_parses_integer_arguments() {
    let reg = demo_registry();
    match reg.decide(&toks(&["add", "42", "-7"])) {
        Decision::Run { args, .. } => {
            assert!(matches!(args[0], ArgValue::Int(42)));
            assert!(matches!(args[1], ArgValue::Int(-7)));
        },
        _ => panic!("expected the command to run"),
    }
    match reg.decide(&toks(&["add", "42", "4x"])) {
        Decision::Reject { error, .. } => {
            assert_eq!(
                error.message(),
                "error parsing IPC command argument: invalid integer argument: 4x"
            );
        },
        _ => panic!("expected a reject"),
    }
}

#[test]
fn dispatch_checks_identifier_arguments() {
    let reg = demo_registry();
    match reg.decide(&toks(&["set-flag", "loud_mode"])) {
        Decision::Run { args, .. } => match &args[0] {
            ArgValue::Ident(s) => assert_eq!(s, "loud_mode"),
            _ => panic!("expected an identifier argument"),
        },
        _ => panic!("expected the command to run"),
    }
    match reg.decide(&toks(&["set-flag", "a b"])) {
        Decision::Reject { error, .. } => {
            assert_eq!(
                error.message(),
                "error parsing IPC command argument: invalid identifier argument: a b"
            );
        },
        _ => panic!("expected a reject"),
    }
}

#[test]
fn handler_failure_text_is_the_reply() {
    let reg = demo_registry();
    match reg.decide(&toks(&["ping"])) {
        Decision::Run { cmd, .. } => {
            assert_eq!(reg.reply_for(cmd, Err("no pong today".to_string())), "no pong today");
        },
        _ => panic!("expected the command to run"),
    }
}

#[test]
fn context_is_refused_fast_while_pending() {
    let cell: ReadyCell<u64> = ReadyCell::new_pending();
    match require_context(&cell) {
        Err(IpcError::MissingContext) => {},
        _ => panic!("expected a missing-context failure"),
    }
    let cell = ReadyCell::new_ready(5u64);
    assert_eq!(require_context(&cell).map(|v| *v).ok(), Some(5));
}
