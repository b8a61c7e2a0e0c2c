use sonicast::writer::{encode_command, unquote_arg, EncodeError};

#[test]
fn encode_without_arguments_is_the_bare_command() {
    let line = encode_command("status", &Vec::new()).unwrap();
    assert_eq!(line, "status\n");
}

#[test]
fn encode_quotes_each_argument() {
    let args = vec!["one".to_owned(), "two words".to_owned()];
    let line = encode_command("addid", &args).unwrap();
    assert_eq!(line, "addid \"one\" \"two words\"\n");
}

#[test]
fn encode_escapes_quotes_and_backslashes() {
    let args = vec![r#"a"b\c"#.to_owned()];
    let line = encode_command("find", &args).unwrap();
    assert_eq!(line, "find \"a\\\"b\\\\c\"\n");
}

#[test]
fn encode_rejects_newline_in_argument() {
    let args = vec!["one\ntwo".to_owned()];
    assert_eq!(
        encode_command("addid", &args),
        Err(EncodeError::NewlineInArgument)
    );
}

#[test]
fn encode_accepts_empty_argument() {
    let args = vec!["".to_owned()];
    let line = encode_command("load", &args).unwrap();
    assert_eq!(line, "load \"\"\n");
}

#[test]
fn quoting_round_trips_through_the_wire_format() {
    // encode-then-decode reproduces strings with quotes and backslashes
    for original in [r#"a"b\c"#, r#"\\""#, "plain", "", r#"""#] {
        let args = vec![original.to_owned()];
        let line = encode_command("cmd", &args).unwrap();
        // the quoted argument is everything after "cmd " up to the newline
        let quoted = &line[4..line.len() - 1];
        let decoded = unquote_arg(quoted).unwrap();
        assert_eq!(decoded, original);
    }
}

#[test]
fn unquote_rejects_malformed_arguments() {
    assert!(unquote_arg("no quotes").is_none());
    assert!(unquote_arg("\"bare \" quote\"").is_none());
    assert!(unquote_arg("\"trailing slash\\\"").is_none());
    assert!(unquote_arg("\"").is_none());
}
