use slicer_service::command::{parse_command_string, split_command, tokenize};

fn owned(words: &[&str]) -> Vec<String> {
    words.iter().map(|w| w.to_string()).collect()
}

#[test]
fn tokenize_plain_words() {
    assert_eq!(tokenize("a b c"), owned(&["a", "b", "c"]));
}

#[test]
fn tokenize_keeps_quoted_paths_whole() {
    assert_eq!(
        tokenize("\"C:/Program Files/app.exe\" -arg \"value here\""),
        owned(&["C:/Program Files/app.exe", "-arg", "value here"])
    );
}

#[test]
fn tokenize_ignores_extra_separators_between_tokens() {
    assert_eq!(tokenize("a  b\t\t c"), tokenize("a b c"));
    assert_eq!(tokenize("\"x  y\"   z"), owned(&["x  y", "z"]));
    assert_eq!(tokenize("\"x  y\" z"), tokenize("\"x  y\" \t  z"));
}

#[test]
fn tokenize_empty_and_blank_input() {
    assert!(tokenize("").is_empty());
    assert!(tokenize("  \t  ").is_empty());
    assert!(tokenize("\n \r\n").is_empty());
}

#[test]
fn tokenize_unmatched_quote_runs_to_the_end() {
    assert_eq!(tokenize("a \"b c  "), owned(&["a", "b c"]));
    assert_eq!(tokenize("a \"b \t c"), owned(&["a", "b \t c"]));
}

#[test]
fn tokenize_trims_other_white_space_at_the_ends() {
    assert_eq!(tokenize("\napp\r\n"), owned(&["app"]));
    assert_eq!(tokenize("app\nx"), owned(&["app\nx"]));
}

#[test]
fn tokenize_joins_quoted_and_plain_parts() {
    assert_eq!(tokenize("ab\"c d\"e"), owned(&["abc de"]));
    assert!(tokenize("\"\"").is_empty());
}

#[test]
fn split_joins_tokens_before_the_first_flag() {
    let (exe, args) = split_command(&owned(&["C:/Program", "Files/app.exe", "-arg", "value"]));
    assert_eq!(exe, "C:/Program Files/app.exe");
    assert_eq!(args, owned(&["-arg", "value"]));
}

#[test]
fn split_single_token_is_the_executable() {
    let (exe, args) = split_command(&owned(&["app"]));
    assert_eq!(exe, "app");
    assert!(args.is_empty());
}

#[test]
fn split_without_flags_takes_the_first_token() {
    let (exe, args) = split_command(&owned(&["my", "app", "file"]));
    assert_eq!(exe, "my");
    assert_eq!(args, owned(&["app", "file"]));
}

#[test]
fn split_leading_flag_leaves_no_executable() {
    let (exe, args) = split_command(&owned(&["-x", "y"]));
    assert_eq!(exe, "");
    assert_eq!(args, owned(&["-x", "y"]));
    let (exe, args) = split_command(&owned(&["/usr/bin/tool"]));
    assert_eq!(exe, "");
    assert_eq!(args, owned(&["/usr/bin/tool"]));
}

#[test]
fn split_empty_sequence() {
    let (exe, args) = split_command(&Vec::new());
    assert_eq!(exe, "");
    assert!(args.is_empty());
}

#[test]
fn parse_quoted_executable_with_arguments() {
    let (exe, args) = parse_command_string("\"C:/Program Files/app.exe\" -arg \"value here\"");
    assert_eq!(exe, "C:/Program Files/app.exe");
    assert_eq!(args, owned(&["-arg", "value here"]));
}

#[test]
fn parse_unquoted_executable_with_spaces() {
    let (exe, args) = parse_command_string("C:/Program Files/app.exe -arg value");
    assert_eq!(exe, "C:/Program Files/app.exe");
    assert_eq!(args, owned(&["-arg", "value"]));
}

#[test]
fn parse_empty_and_blank_commands() {
    assert_eq!(parse_command_string(""), (String::new(), Vec::new()));
    assert_eq!(parse_command_string("   "), (String::new(), Vec::new()));
}
