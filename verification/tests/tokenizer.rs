use ipc_control::tokenizer::{join_quoted, quote, tokenize, Tokenized};

fn words(r: Tokenized) -> Vec<String> {
    match r {
        Tokenized::Complete(w) => w,
        Tokenized::Incomplete => panic!("expected complete tokenization"),
    }
}

#[test]
fn tokenize_blank_line_is_empty() {
    assert!(words(tokenize("")).is_empty());
    assert!(words(tokenize("   \t  ")).is_empty());
}

#[test]
fn tokenize_plain_words() {
    assert_eq!(words(tokenize("greet alice bob")), vec!["greet", "alice", "bob"]);
}

#[test]
fn tokenize_single_quotes() {
    assert_eq!(words(tokenize("greet 'a b'")), vec!["greet", "a b"]);
    assert_eq!(words(tokenize("say ''")), vec!["say", ""]);
}

#[test]
fn tokenize_double_quotes_and_escape() {
    assert_eq!(words(tokenize("say \"a b\"")), vec!["say", "a b"]);
    assert_eq!(words(tokenize("say \"a\\\"b\"")), vec!["say", "a\"b"]);
    assert_eq!(words(tokenize("say a\\ b")), vec!["say", "a b"]);
}

#[test]
fn tokenize_adjacent_quoted_pieces_form_one_word() {
    assert_eq!(words(tokenize("say 'a'\"b\"c")), vec!["say", "abc"]);
}

#[test]
fn tokenize_unterminated_quote_needs_more() {
    assert!(matches!(tokenize("echo 'hello"), Tokenized::Incomplete));
    assert!(matches!(tokenize("echo \"hello"), Tokenized::Incomplete));
    assert!(matches!(tokenize("echo hello\\"), Tokenized::Incomplete));
}

#[test]
fn quote_plain_word_stands_for_itself() {
    assert_eq!(quote("greet"), "greet");
    assert_eq!(quote("a-b_c9"), "a-b_c9");
}

#[test]
fn quote_empty_and_special_words() {
    assert_eq!(quote(""), "''");
    assert_eq!(quote("a b"), "'a b'");
    assert_eq!(quote("it's"), "'it'\\''s'");
    assert_eq!(quote("a\"b"), "'a\"b'");
}

#[test]
fn quote_then_tokenize_round_trips() {
    let cases: Vec<Vec<&str>> = vec![
        vec![],
        vec!["ping"],
        vec!["greet", "a b"],
        vec!["echo", "it's", "a \"test\"", ""],
        vec!["odd", "back\\slash", "new\nline", "tab\there"],
        vec!["'", "''", "' '"],
    ];
    for case in cases {
        let args: Vec<String> = case.iter().map(|s| s.to_string()).collect();
        let line = join_quoted(&args);
        assert_eq!(words(tokenize(&line)), args, "line was: {line}");
    }
}

#[test]
fn join_quoted_spaces_words() {
    let args: Vec<String> = vec!["greet".to_string(), "a b".to_string()];
    assert_eq!(join_quoted(&args), "greet 'a b'");
}
