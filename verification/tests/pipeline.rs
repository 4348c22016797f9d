use jobshell::background::BackgroundManager;
use jobshell::dispatch::{
    dispatch, parse_command_line, record, strip_background, Action, CommandLine,
};
use jobshell::error::{RedirectionKind, ShellError};
use jobshell::external::Launched;
use jobshell::lexer::{get_tokens, TokenList};
use jobshell::piping::{
    pipe_ends, split_pipeline, wire_child, wiring_steps, PipelineRun, SpawnRequest, WireStep,
};

fn toks(words: &[&str]) -> Vec<String> {
    words.iter().map(|w| w.to_string()).collect()
}

fn segment(words: &[&str]) -> TokenList {
    TokenList { items: toks(words) }
}

fn segments_of(line: &str) -> Result<Vec<Vec<String>>, ShellError> {
    split_pipeline(&get_tokens(line).items).map(|p| p.into_iter().map(|s| s.items).collect())
}

#[test]
fn line_without_pipe_is_one_segment() {
    assert_eq!(segments_of("ls -l"), Ok(vec![toks(&["ls", "-l"])]));
    assert_eq!(segments_of(""), Ok(vec![toks(&[])]));
}

#[test]
fn two_and_three_segments_split_at_pipes() {
    assert_eq!(segments_of("cat | wc -l"), Ok(vec![toks(&["cat"]), toks(&["wc", "-l"])]));
    assert_eq!(
        segments_of("a 1 | b 2 | c 3"),
        Ok(vec![toks(&["a", "1"]), toks(&["b", "2"]), toks(&["c", "3"])])
    );
}

#[test]
fn empty_segment_is_a_syntax_error() {
    assert_eq!(segments_of("| wc"), Err(ShellError::PipelineSyntax));
    assert_eq!(segments_of("ls |"), Err(ShellError::PipelineSyntax));
    assert_eq!(segments_of("ls | | wc"), Err(ShellError::PipelineSyntax));
    assert_eq!(segments_of("|"), Err(ShellError::PipelineSyntax));
}

#[test]
fn four_segments_are_too_many() {
    assert_eq!(segments_of("a | b | c | d"), Err(ShellError::TooManyPipes));
    assert_eq!(segments_of("a | b | c | d | e"), Err(ShellError::TooManyPipes));
}

#[test]
fn syntax_error_comes_before_too_many() {
    assert_eq!(segments_of("a | b | | c | d"), Err(ShellError::PipelineSyntax));
}

#[test]
fn pipe_inside_a_token_is_no_operator() {
    assert_eq!(segments_of("a|b c"), Ok(vec![toks(&["a|b", "c"])]));
}

#[test]
fn trailing_ampersand_asks_for_background() {
    let mut tokens = toks(&["sleep", "1", "&"]);
    assert!(strip_background(&mut tokens));
    assert_eq!(tokens, toks(&["sleep", "1"]));
    let mut plain = toks(&["sleep", "&", "1"]);
    assert!(!strip_background(&mut plain));
    assert_eq!(plain, toks(&["sleep", "&", "1"]));
    let mut none: Vec<String> = Vec::new();
    assert!(!strip_background(&mut none));
    let mut only = toks(&["&"]);
    assert!(strip_background(&mut only));
    assert!(only.is_empty());
}

#[test]
fn single_command_line_is_parsed_with_redirection() {
    match parse_command_line(&toks(&["echo", "hi", ">", "/tmp/x.out"])) {
        Ok(CommandLine::Single(r)) => {
            assert_eq!(r.argv, toks(&["echo", "hi"]));
            assert_eq!(r.output_file, Some("/tmp/x.out".to_string()));
            assert_eq!(r.input_file, None);
        }
        _ => panic!("expected a single command"),
    }
}

#[test]
fn pipeline_line_keeps_segments_as_they_are() {
    match parse_command_line(&toks(&["cat", "<", "f", "|", "wc", "-l"])) {
        Ok(CommandLine::Pipeline(p)) => {
            assert_eq!(p.len(), 2);
            assert_eq!(p[0].items, toks(&["cat", "<", "f"]));
            assert_eq!(p[1].items, toks(&["wc", "-l"]));
        }
        _ => panic!("expected a pipeline"),
    }
}

#[test]
fn missing_target_discards_the_line() {
    let line = parse_command_line(&toks(&["cat", "<"]));
    assert!(matches!(
        line,
        Err(ShellError::MissingRedirectionTarget(RedirectionKind::Input))
    ));
    let line = parse_command_line(&toks(&["echo", ">"]));
    assert!(matches!(
        line,
        Err(ShellError::MissingRedirectionTarget(RedirectionKind::Output))
    ));
}

#[test]
fn line_with_only_redirections_has_no_command() {
    assert!(matches!(parse_command_line(&toks(&[">", "out"])), Err(ShellError::NoCommand)));
    assert!(matches!(parse_command_line(&toks(&[])), Err(ShellError::NoCommand)));
}

#[test]
fn long_pipeline_line_is_refused() {
    let line = parse_command_line(&toks(&["a", "|", "b", "|", "c", "|", "d"]));
    assert!(matches!(line, Err(ShellError::TooManyPipes)));
    let line = parse_command_line(&toks(&["a", "|", "|", "b"]));
    assert!(matches!(line, Err(ShellError::PipelineSyntax)));
}

#[test]
fn four_commands_are_refused_before_any_pipe() {
    let commands = vec![segment(&["a"]), segment(&["b"]), segment(&["c"]), segment(&["d"])];
    assert!(matches!(PipelineRun::begin(commands, false), Err(ShellError::TooManyPipes)));
}

#[test]
fn nul_in_an_argument_is_refused() {
    let commands = vec![segment(&["a"]), segment(&["b\0c"])];
    assert!(matches!(PipelineRun::begin(commands, false), Err(ShellError::InvalidArgument)));
}

#[test]
fn two_commands_share_one_pipe() {
    let commands = vec![segment(&["/bin/cat"]), segment(&["/usr/bin/wc", "-l"])];
    let mut run = PipelineRun::begin(commands, true).unwrap();
    assert_eq!(run.pipes().len(), 1);
    let (read_end, write_end) = run.pipes()[0];
    assert_ne!(read_end, write_end);

    let first = run.next_spawn().unwrap();
    assert_eq!(first.segment, 0);
    assert_eq!(first.argv, toks(&["/bin/cat"]));
    assert_eq!(first.stdin, None);
    assert_eq!(first.stdout, Some(write_end));
    assert_eq!(first.close, vec![read_end, write_end]);

    let second = run.next_spawn().unwrap();
    assert_eq!(second.segment, 1);
    assert_eq!(second.argv, toks(&["/usr/bin/wc", "-l"]));
    assert_eq!(second.stdin, Some(read_end));
    assert_eq!(second.stdout, None);
    assert_eq!(second.close, vec![read_end, write_end]);

    assert!(run.next_spawn().is_none());
    assert_eq!(run.command_text(), "/bin/cat | /usr/bin/wc -l");

    let mut manager = BackgroundManager::new();
    assert_eq!(run.finish(&mut manager), Ok(Launched::Nothing));
    assert!(manager.jobs().is_empty());
}

#[test]
fn three_commands_share_two_pipes() {
    let commands = vec![segment(&["a"]), segment(&["b", "x"]), segment(&["c"])];
    let mut run = PipelineRun::begin(commands, true).unwrap();
    assert_eq!(run.pipes().len(), 2);
    let pipes = run.pipes().clone();
    let all = vec![pipes[0].0, pipes[0].1, pipes[1].0, pipes[1].1];
    assert_eq!(pipe_ends(&pipes), all);

    let first = run.next_spawn().unwrap();
    assert_eq!((first.segment, first.stdin, first.stdout), (0, None, Some(pipes[0].1)));
    run.spawned(100);
    let middle = run.next_spawn().unwrap();
    assert_eq!(
        (middle.segment, middle.stdin, middle.stdout),
        (1, Some(pipes[0].0), Some(pipes[1].1))
    );
    assert_eq!(middle.close, all);
    run.spawned(101);
    let last = run.next_spawn().unwrap();
    assert_eq!((last.segment, last.stdin, last.stdout), (2, Some(pipes[1].0), None));
    run.spawned(102);
    assert!(run.next_spawn().is_none());
    assert_eq!(run.last_pid(), Some(102));

    let mut manager = BackgroundManager::new();
    let launched = run.finish(&mut manager).unwrap();
    match launched {
        Launched::Backgrounded(handle) => {
            assert_eq!(handle.job_number, 1);
            assert_eq!(handle.pid, 102);
        }
        _ => panic!("expected a background job"),
    }
    assert_eq!(manager.jobs().len(), 1);
    assert_eq!(manager.jobs()[0].command, "a | b x | c");
    assert_eq!(manager.jobs()[0].pid, 102);
}

#[test]
fn foreground_pipeline_waits_and_registers_nothing() {
    let commands = vec![segment(&["a"]), segment(&["b"])];
    let mut run = PipelineRun::begin(commands, false).unwrap();
    while run.next_spawn().is_some() {}
    let mut manager = BackgroundManager::new();
    assert_eq!(run.finish(&mut manager), Ok(Launched::Waited));
    assert!(manager.jobs().is_empty());
    assert_eq!(manager.next_job_number(), 1);
}

#[test]
fn commands_without_tokens_are_skipped() {
    let commands = vec![segment(&[]), segment(&["b"]), segment(&[])];
    let mut run = PipelineRun::begin(commands, true).unwrap();
    let only = run.next_spawn().unwrap();
    assert_eq!(only.segment, 1);
    assert!(run.next_spawn().is_none());
    let mut manager = BackgroundManager::new();
    assert_eq!(run.finish(&mut manager), Ok(Launched::Nothing));
}

#[test]
fn empty_pipeline_starts_nothing() {
    let mut run = PipelineRun::begin(Vec::new(), false).unwrap();
    assert!(run.pipes().is_empty());
    assert!(run.next_spawn().is_none());
    assert_eq!(run.command_text(), "");
}

#[test]
fn child_that_inherits_both_streams_is_wired() {
    let request = SpawnRequest {
        segment: 0,
        argv: toks(&["/bin/true"]),
        stdin: None,
        stdout: None,
        close: Vec::new(),
    };
    assert_eq!(wire_child(&request), Ok(()));
}

#[test]
fn bad_descriptor_cannot_be_duplicated() {
    let request = SpawnRequest {
        segment: 1,
        argv: toks(&["/bin/true"]),
        stdin: Some(-1),
        stdout: None,
        close: Vec::new(),
    };
    assert!(matches!(wire_child(&request), Err(ShellError::DuplicateFailed(_))));
}

#[test]
fn empty_line_is_no_action() {
    let mut history = toks(&["a"]);
    let mut manager = BackgroundManager::new();
    let action = dispatch(&toks(&[]), "", &mut history, &mut manager);
    assert!(matches!(action, Action::Nothing));
    assert_eq!(history, toks(&["a"]));
}

#[test]
fn exit_line_reports_and_drains() {
    let mut history = toks(&["a", "b", "c", "d"]);
    let mut manager = BackgroundManager::new();
    manager.add_job(2147483647, "ghost".to_string());
    match dispatch(&toks(&["exit"]), "exit", &mut history, &mut manager) {
        Action::Exit(lines) => assert_eq!(lines, toks(&["b", "c", "d", "Exiting shell."])),
        _ => panic!("expected exit"),
    }
    assert!(manager.jobs().is_empty());
    assert_eq!(history, toks(&["a", "b", "c", "d"]));
}

#[test]
fn jobs_line_goes_into_the_history() {
    let mut history = toks(&["ls"]);
    let mut manager = BackgroundManager::new();
    manager.add_job(9, "sleep 3".to_string());
    match dispatch(&toks(&["jobs"]), "jobs", &mut history, &mut manager) {
        Action::Print(lines) => assert_eq!(lines, toks(&["[1]+ 9 sleep 3"])),
        _ => panic!("expected a listing"),
    }
    assert_eq!(history, toks(&["ls", "jobs"]));
    assert_eq!(manager.jobs().len(), 1);
}

#[test]
fn cd_line_asks_for_a_change_of_directory() {
    let mut history: Vec<String> = Vec::new();
    let mut manager = BackgroundManager::new();
    match dispatch(&toks(&["cd", "/tmp"]), "cd /tmp", &mut history, &mut manager) {
        Action::ChangeDirectory(jobshell::builtin::CdTarget::Path(p)) => assert_eq!(p, "/tmp"),
        _ => panic!("expected a change of directory"),
    }
    assert!(history.is_empty());
    match dispatch(&toks(&["cd", "a", "b"]), "cd a b", &mut history, &mut manager) {
        Action::Reject(message) => assert_eq!(message, "cd: too many arguments"),
        _ => panic!("expected a rejection"),
    }
    assert!(history.is_empty());
}

#[test]
fn external_line_is_launched_or_rejected() {
    let mut history: Vec<String> = Vec::new();
    let mut manager = BackgroundManager::new();
    match dispatch(&toks(&["ls", "-l"]), "ls -l", &mut history, &mut manager) {
        Action::Launch(CommandLine::Single(r)) => assert_eq!(r.argv, toks(&["ls", "-l"])),
        _ => panic!("expected a launch"),
    }
    match dispatch(&toks(&["cat", "|", "wc"]), "cat | wc", &mut history, &mut manager) {
        Action::Launch(CommandLine::Pipeline(p)) => assert_eq!(p.len(), 2),
        _ => panic!("expected a pipeline"),
    }
    match dispatch(&toks(&["cat", "<"]), "cat <", &mut history, &mut manager) {
        Action::Reject(message) => {
            assert_eq!(message, "Error: no input file specified after '<'")
        }
        _ => panic!("expected a rejection"),
    }
    match dispatch(&toks(&["a", "|", "b", "|", "c", "|", "d"]), "x", &mut history, &mut manager) {
        Action::Reject(message) => assert_eq!(message, "Only accept up to 2 pipes"),
        _ => panic!("expected a rejection"),
    }
    match dispatch(&toks(&["ls", "|"]), "ls |", &mut history, &mut manager) {
        Action::Reject(message) => assert_eq!(message, "Error: pipeline syntax error"),
        _ => panic!("expected a rejection"),
    }
    assert!(history.is_empty());
    record(&mut history, "ls -l");
    assert_eq!(history, toks(&["ls -l"]));
}

#[test]
fn child_redirects_before_it_closes() {
    let middle = SpawnRequest {
        segment: 1,
        argv: toks(&["/bin/cat"]),
        stdin: Some(3),
        stdout: Some(6),
        close: vec![3, 4, 5, 6],
    };
    assert_eq!(
        wiring_steps(&middle),
        vec![
            WireStep::Redirect(3, RedirectionKind::Input),
            WireStep::Redirect(6, RedirectionKind::Output),
            WireStep::Close(3),
            WireStep::Close(4),
            WireStep::Close(5),
            WireStep::Close(6),
        ]
    );
    let first = SpawnRequest {
        segment: 0,
        argv: toks(&["/bin/cat"]),
        stdin: None,
        stdout: Some(4),
        close: vec![3, 4],
    };
    assert_eq!(
        wiring_steps(&first),
        vec![
            WireStep::Redirect(4, RedirectionKind::Output),
            WireStep::Close(3),
            WireStep::Close(4),
        ]
    );
    let alone = SpawnRequest {
        segment: 0,
        argv: toks(&["/bin/true"]),
        stdin: None,
        stdout: None,
        close: Vec::new(),
    };
    assert!(wiring_steps(&alone).is_empty());
}
