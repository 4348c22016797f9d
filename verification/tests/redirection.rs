use jobshell::error::{RedirectionKind, ShellError};
use jobshell::redirection::parse_redirection;

fn toks(words: &[&str]) -> Vec<String> {
    words.iter().map(|w| w.to_string()).collect()
}

#[test]
fn plain_command_has_no_redirection() {
    let parsed = parse_redirection(&toks(&["ls", "-l"])).unwrap();
    assert_eq!(parsed.argv, toks(&["ls", "-l"]));
    assert_eq!(parsed.input_file, None);
    assert_eq!(parsed.output_file, None);
}

#[test]
fn output_redirection_is_taken_out() {
    let parsed = parse_redirection(&toks(&["echo", "hi", ">", "/tmp/x.out"])).unwrap();
    assert_eq!(parsed.argv, toks(&["echo", "hi"]));
    assert_eq!(parsed.input_file, None);
    assert_eq!(parsed.output_file, Some("/tmp/x.out".to_string()));
}

#[test]
fn both_redirections_in_any_place() {
    let parsed = parse_redirection(&toks(&["<", "in", "sort", ">", "out", "-r"])).unwrap();
    assert_eq!(parsed.argv, toks(&["sort", "-r"]));
    assert_eq!(parsed.input_file, Some("in".to_string()));
    assert_eq!(parsed.output_file, Some("out".to_string()));
}

#[test]
fn missing_input_target_is_refused() {
    let parsed = parse_redirection(&toks(&["cat", "<"]));
    assert_eq!(
        parsed.err(),
        Some(ShellError::MissingRedirectionTarget(RedirectionKind::Input))
    );
}

#[test]
fn missing_output_target_is_refused() {
    let parsed = parse_redirection(&toks(&["echo", "hi", ">"]));
    assert_eq!(
        parsed.err(),
        Some(ShellError::MissingRedirectionTarget(RedirectionKind::Output))
    );
    let alone = parse_redirection(&toks(&[">"]));
    assert_eq!(
        alone.err(),
        Some(ShellError::MissingRedirectionTarget(RedirectionKind::Output))
    );
}

#[test]
fn repeated_operator_last_wins() {
    let parsed = parse_redirection(&toks(&["echo", ">", "a", ">", "b"])).unwrap();
    assert_eq!(parsed.argv, toks(&["echo"]));
    assert_eq!(parsed.output_file, Some("b".to_string()));
}

#[test]
fn operator_takes_the_next_token_whatever_it_is() {
    let parsed = parse_redirection(&toks(&["cat", "<", ">"])).unwrap();
    assert_eq!(parsed.argv, toks(&["cat"]));
    assert_eq!(parsed.input_file, Some(">".to_string()));
    assert_eq!(parsed.output_file, None);
}

#[test]
fn operators_are_whole_tokens_only() {
    let parsed = parse_redirection(&toks(&["echo", ">out", "a<b"])).unwrap();
    assert_eq!(parsed.argv, toks(&["echo", ">out", "a<b"]));
    assert_eq!(parsed.output_file, None);
}

#[test]
fn empty_command_parses_to_nothing() {
    let parsed = parse_redirection(&toks(&[])).unwrap();
    assert!(parsed.argv.is_empty());
}

#[test]
fn error_messages_name_the_operator() {
    assert_eq!(
        ShellError::MissingRedirectionTarget(RedirectionKind::Input).message(),
        "Error: no input file specified after '<'"
    );
    assert_eq!(
        ShellError::MissingRedirectionTarget(RedirectionKind::Output).message(),
        "Error: no output file specified after '>'"
    );
    assert_eq!(ShellError::PipelineSyntax.message(), "Error: pipeline syntax error");
    assert_eq!(ShellError::TooManyPipes.message(), "Only accept up to 2 pipes");
    assert_eq!(ShellError::NoCommand.message(), "Error: no command specified");
}

#[test]
fn every_error_has_its_message() {
    assert_eq!(
        ShellError::InvalidArgument.message(),
        "Error: argument contains a NUL character"
    );
    assert_eq!(ShellError::PipeFailed(24).message(), "Error: could not create pipe");
    assert_eq!(ShellError::DuplicateFailed(9).message(), "Error: could not redirect stream");
    assert_eq!(ShellError::WaitFailed.message(), "Error: could not wait for command");
    assert_eq!(ShellError::JobNumbersExhausted.message(), "Error: no job number left");
}
