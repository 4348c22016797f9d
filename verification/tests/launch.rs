use jobshell::background::BackgroundManager;
use jobshell::error::{RedirectionKind, ShellError};
use jobshell::external::{
    complete_launch, exec_failure_status, foreground_outcome, plan_command, redirect_stream,
    redirection_outcome, register_background, standard_descriptor, ExecFailure, Launched,
    OUTPUT_FILE_MODE,
};
use jobshell::sys::ChildStatus;

fn toks(words: &[&str]) -> Vec<String> {
    words.iter().map(|w| w.to_string()).collect()
}

#[test]
fn empty_command_is_refused() {
    assert!(matches!(plan_command(&toks(&[]), None, None, false), Err(ShellError::NoCommand)));
    assert!(matches!(
        plan_command(&toks(&[]), Some("in"), Some("out"), true),
        Err(ShellError::NoCommand)
    ));
}

#[test]
fn argument_with_nul_is_refused() {
    assert!(matches!(
        plan_command(&toks(&["/bin/echo", "a\0b"]), None, None, false),
        Err(ShellError::InvalidArgument)
    ));
}

#[test]
fn plan_keeps_arguments_and_files() {
    let plan = plan_command(&toks(&["/bin/echo", "hi"]), None, Some("/tmp/x.out"), false).unwrap();
    assert_eq!(plan.argv, toks(&["/bin/echo", "hi"]));
    assert_eq!(plan.input_file, None);
    assert_eq!(plan.output_file, Some("/tmp/x.out".to_string()));
    assert!(!plan.background);
    assert_eq!(plan.command_text, "/bin/echo hi");
    let plan = plan_command(&toks(&["/bin/cat"]), Some("in"), None, true).unwrap();
    assert_eq!(plan.input_file, Some("in".to_string()));
    assert!(plan.background);
    assert_eq!(plan.command_text, "/bin/cat");
}

#[test]
fn output_files_are_for_the_owner_only() {
    assert_eq!(OUTPUT_FILE_MODE, 0o600);
}

#[test]
fn exec_failures_map_to_exit_codes() {
    assert_eq!(exec_failure_status(ExecFailure::NotFound), 127);
    assert_eq!(exec_failure_status(ExecFailure::PermissionDenied), 126);
    assert_eq!(exec_failure_status(ExecFailure::Other), 1);
}

#[test]
fn background_child_becomes_a_job() {
    let plan = plan_command(&toks(&["/bin/sleep", "1"]), None, None, true).unwrap();
    let mut manager = BackgroundManager::new();
    let launched = complete_launch(&plan, 900, &mut manager).unwrap();
    match launched {
        Launched::Backgrounded(handle) => {
            assert_eq!(handle.job_number, 1);
            assert_eq!(handle.pid, 900);
            assert_eq!(handle.announcement(), "[1] 900");
        }
        _ => panic!("expected a background job"),
    }
    assert_eq!(manager.jobs().len(), 1);
    assert_eq!(manager.jobs()[0].command, "/bin/sleep 1");
}

#[test]
fn foreground_wait_that_fails_is_an_error() {
    let plan = plan_command(&toks(&["/bin/true"]), None, None, false).unwrap();
    let mut manager = BackgroundManager::new();
    let launched = complete_launch(&plan, 2147483647, &mut manager);
    assert_eq!(launched, Err(ShellError::WaitFailed));
    assert!(manager.jobs().is_empty());
}

#[test]
fn any_answer_but_failure_means_waited() {
    assert_eq!(foreground_outcome(ChildStatus::Exited(0)), Ok(Launched::Waited));
    assert_eq!(foreground_outcome(ChildStatus::Exited(127)), Ok(Launched::Waited));
    assert_eq!(foreground_outcome(ChildStatus::Signaled), Ok(Launched::Waited));
    assert_eq!(foreground_outcome(ChildStatus::Stopped), Ok(Launched::Waited));
    assert_eq!(foreground_outcome(ChildStatus::Failed), Err(ShellError::WaitFailed));
}

#[test]
fn registering_hands_out_the_next_number() {
    let mut manager = BackgroundManager::new();
    manager.add_job(1, "a".to_string());
    let launched = register_background(&mut manager, 2, "b".to_string()).unwrap();
    match launched {
        Launched::Backgrounded(handle) => assert_eq!((handle.job_number, handle.pid), (2, 2)),
        _ => panic!("expected a background job"),
    }
    assert_eq!(manager.next_job_number(), 3);
}

#[test]
fn failed_duplication_carries_its_error_number() {
    assert_eq!(redirection_outcome(Ok(())), Ok(()));
    assert_eq!(redirection_outcome(Err(9)), Err(ShellError::DuplicateFailed(9)));
    assert_eq!(redirection_outcome(Err(24)), Err(ShellError::DuplicateFailed(24)));
}

#[test]
fn standard_streams_have_their_descriptors() {
    assert_eq!(standard_descriptor(RedirectionKind::Input), 0);
    assert_eq!(standard_descriptor(RedirectionKind::Output), 1);
}

#[test]
fn closed_descriptor_cannot_become_a_stream() {
    assert!(matches!(
        redirect_stream(-1, RedirectionKind::Input),
        Err(ShellError::DuplicateFailed(_))
    ));
}
