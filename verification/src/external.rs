//! Launching one command: what is checked before a child is created, how the
//! child ends if its program cannot be run, and what the parent does with the
//! child once it exists.

use vstd::prelude::*;
use vstd::string::*;
use crate::background::{BackgroundManager, JobHandle};
use crate::error::{RedirectionKind, ShellError};
use crate::sys::{duplicate_fd, wait_child, ChildStatus};
use crate::text::{any_has_nul, has_nul, join_words, joined, slice_text, text_of, texts};

verus! {

/// The permissions of a file created for redirected output: read and write for
/// the owner, nothing for anyone else.
pub const OUTPUT_FILE_MODE: u32 = 0o600;

/// What a launch left behind.
#[derive(Clone, Copy, Debug, PartialEq, Eq, Structural)]
pub enum Launched {
    /// The children ran in the foreground and were waited for.
    Waited,
    /// The command runs in the background under this job.
    Backgrounded(JobHandle),
    /// A background launch that started no process, so there is no job.
    Nothing,
}

/// Why a child could not replace itself with its program.
#[derive(Clone, Copy, Debug, PartialEq, Eq, Structural)]
pub enum ExecFailure {
    /// The executable does not exist.
    NotFound,
    /// The executable exists but may not be executed.
    PermissionDenied,
    /// Anything else.
    Other,
}

/// The exit status with which a child ends when it cannot run its program.
pub open spec fn exec_failure_status_of(failure: ExecFailure) -> i32 {
    match failure {
        ExecFailure::NotFound => 127i32,
        ExecFailure::PermissionDenied => 126i32,
        ExecFailure::Other => 1i32,
    }
}

/// The exit status with which a child ends when it cannot run its program: 127
/// if the executable was not found, 126 if it may not be executed, 1 otherwise.
pub fn exec_failure_status(failure: ExecFailure) -> (code: i32)
    ensures
        code == exec_failure_status_of(failure),
{
    match failure {
        ExecFailure::NotFound => 127,
        ExecFailure::PermissionDenied => 126,
        ExecFailure::Other => 1,
    }
}

/// One command, checked and ready to be started as a child process.
pub struct LaunchPlan {
    /// The program and its arguments, handed to the program as they are.
    pub argv: Vec<String>,
    /// The file to open read-only as standard input, if any.
    pub input_file: Option<String>,
    /// The file to create or truncate as standard output, if any.
    pub output_file: Option<String>,
    /// Whether the command is detached.
    pub background: bool,
    /// The command on one line, as a job shows it.
    pub command_text: String,
}

/// One thing a child does, between its creation and its program.
pub enum ChildStep {
    /// Open this file read-only and make it standard input.
    OpenInput(String),
    /// Create or truncate this file, with these permissions if it is created,
    /// open it for writing and make it standard output.
    OpenOutput(String, u32),
    /// Replace the child by the program `argv[0]`, with `argv` as its
    /// arguments, the program's name included.
    Execute(Vec<String>),
}

/// A step as contracts see it.
pub ghost enum ChildStepView {
    OpenInput(Seq<char>),
    OpenOutput(Seq<char>, u32),
    Execute(Seq<Seq<char>>),
}

impl View for ChildStep {
    type V = ChildStepView;

    open spec fn view(&self) -> ChildStepView {
        match self {
            ChildStep::OpenInput(path) => ChildStepView::OpenInput(path@),
            ChildStep::OpenOutput(path, mode) => ChildStepView::OpenOutput(path@, *mode),
            ChildStep::Execute(argv) => ChildStepView::Execute(texts(argv@)),
        }
    }
}

/// The views of a list of steps, in order.
pub open spec fn step_views(steps: Seq<ChildStep>) -> Seq<ChildStepView> {
    Seq::new(steps.len(), |i: int| steps[i]@)
}

/// What the child of a single command does, in order: standard input first,
/// if it is redirected, then standard output, if it is redirected, and the
/// program last. If a step fails, the child ends without going on.
pub open spec fn child_steps_of(
    argv: Seq<Seq<char>>,
    input_file: Option<Seq<char>>,
    output_file: Option<Seq<char>>,
) -> Seq<ChildStepView> {
    let input = match input_file {
        Some(path) => seq![ChildStepView::OpenInput(path)],
        None => Seq::empty(),
    };
    let output = match output_file {
        Some(path) => seq![ChildStepView::OpenOutput(path, OUTPUT_FILE_MODE)],
        None => Seq::empty(),
    };
    input + output + seq![ChildStepView::Execute(argv)]
}

impl LaunchPlan {
    /// The steps of the child, in the order in which it takes them.
    pub fn child_steps(&self) -> (steps: Vec<ChildStep>)
        ensures
            step_views(steps@) == child_steps_of(
                texts(self.argv@),
                text_of(self.input_file),
                text_of(self.output_file),
            ),
    {
        let mut steps: Vec<ChildStep> = Vec::new();
        if let Some(path) = &self.input_file {
            steps.push(ChildStep::OpenInput(path.clone()));
        }
        if let Some(path) = &self.output_file {
            steps.push(ChildStep::OpenOutput(path.clone(), OUTPUT_FILE_MODE));
        }
        let argv = self.argv.clone();
        assert(texts(argv@) =~= texts(self.argv@));
        steps.push(ChildStep::Execute(argv));
        assert(step_views(steps@) =~= child_steps_of(
            texts(self.argv@),
            text_of(self.input_file),
            text_of(self.output_file),
        ));
        steps
    }
}

/// The descriptor of a standard stream: 0 for input, 1 for output.
pub open spec fn stream_descriptor(stream: RedirectionKind) -> i32 {
    match stream {
        RedirectionKind::Input => 0i32,
        RedirectionKind::Output => 1i32,
    }
}

/// The descriptor of a standard stream.
pub fn standard_descriptor(stream: RedirectionKind) -> (fd: i32)
    ensures
        fd == stream_descriptor(stream),
{
    match stream {
        RedirectionKind::Input => 0,
        RedirectionKind::Output => 1,
    }
}

/// Makes the open descriptor `fd` the child's standard input or output.
pub fn redirect_stream(fd: i32, stream: RedirectionKind) -> (redirected: Result<(), ShellError>)
    ensures
        redirected matches Err(e) ==> (e is DuplicateFailed),
{
    redirection_outcome(duplicate_fd(fd, standard_descriptor(stream)))
}

/// What the answer to a duplication amounts to: success stays success, and an
/// error number becomes the error that carries it.
pub open spec fn redirection_outcome_of(duplicated: Result<(), i32>) -> Result<(), ShellError> {
    match duplicated {
        Ok(_) => Ok(()),
        Err(errno) => Err(ShellError::DuplicateFailed(errno)),
    }
}

/// Turns the answer to a duplication into the outcome of a redirection.
pub fn redirection_outcome(duplicated: Result<(), i32>) -> (redirected: Result<(), ShellError>)
    ensures
        redirected == redirection_outcome_of(duplicated),
{
    match duplicated {
        Ok(()) => Ok(()),
        Err(errno) => Err(ShellError::DuplicateFailed(errno)),
    }
}

/// Checks a command before any process is created. An empty command is
/// refused, and so is one with a NUL character in an argument. Otherwise the
/// plan holds the arguments and files unchanged, and the arguments joined by
/// single spaces as the text of the command.
pub fn plan_command(
    cmd_tokens: &Vec<String>,
    input_file: Option<&str>,
    output_file: Option<&str>,
    background: bool,
) -> (plan: Result<LaunchPlan, ShellError>)
    ensures
        cmd_tokens@.len() == 0 ==> plan == Err::<LaunchPlan, ShellError>(ShellError::NoCommand),
        cmd_tokens@.len() > 0 && has_nul(texts(cmd_tokens@)) ==> plan == Err::<
            LaunchPlan,
            ShellError,
        >(ShellError::InvalidArgument),
        cmd_tokens@.len() > 0 && !has_nul(texts(cmd_tokens@)) ==> (plan is Ok),
        plan matches Ok(p) ==> {
            &&& texts(p.argv@) == texts(cmd_tokens@)
            &&& text_of(p.input_file) == slice_text(input_file)
            &&& text_of(p.output_file) == slice_text(output_file)
            &&& p.background == background
            &&& p.command_text@ == joined(texts(cmd_tokens@))
        },
{
    if cmd_tokens.len() == 0 {
        return Err(ShellError::NoCommand);
    }
    if any_has_nul(cmd_tokens) {
        return Err(ShellError::InvalidArgument);
    }
    let command_text = join_words(cmd_tokens);
    let argv = cmd_tokens.clone();
    assert(texts(argv@) =~= texts(cmd_tokens@));
    let input_file = match input_file {
        Some(path) => Some(String::from_str(path)),
        None => None,
    };
    let output_file = match output_file {
        Some(path) => Some(String::from_str(path)),
        None => None,
    };
    Ok(LaunchPlan { argv, input_file, output_file, background, command_text })
}

/// Registers a detached child as a job, unless every job number is used up.
pub fn register_background(manager: &mut BackgroundManager, pid: i32, command: String) -> (launched:
    Result<Launched, ShellError>)
    ensures
        old(manager)@.next_job_number < usize::MAX ==> {
            &&& launched == Ok::<Launched, ShellError>(
                Launched::Backgrounded(
                    JobHandle { job_number: old(manager)@.next_job_number as usize, pid },
                ),
            )
            &&& final(manager)@ == old(manager)@.register(pid as int, command@)
        },
        old(manager)@.next_job_number >= usize::MAX ==> {
            &&& launched == Err::<Launched, ShellError>(ShellError::JobNumbersExhausted)
            &&& final(manager)@ == old(manager)@
        },
        old(manager)@.wf() ==> final(manager)@.wf(),
{
    if !manager.can_register() {
        return Err(ShellError::JobNumbersExhausted);
    }
    let handle = manager.add_job(pid, command);
    Ok(Launched::Backgrounded(handle))
}

/// What a blocking wait for the foreground child amounts to: a failed wait is
/// an error, any other answer means the child was waited for.
pub fn foreground_outcome(status: ChildStatus) -> (launched: Result<Launched, ShellError>)
    ensures
        launched == if status is Failed {
            Err::<Launched, ShellError>(ShellError::WaitFailed)
        } else {
            Ok::<Launched, ShellError>(Launched::Waited)
        },
{
    match status {
        ChildStatus::Failed => Err(ShellError::WaitFailed),
        _ => Ok(Launched::Waited),
    }
}

/// The parent's part once the child exists. A background child becomes a job
/// under the text of its command and is not waited for. A foreground child is
/// waited for, blocking, and the job manager is left alone.
pub fn complete_launch(plan: &LaunchPlan, child: i32, manager: &mut BackgroundManager) -> (launched:
    Result<Launched, ShellError>)
    ensures
        plan.background && old(manager)@.next_job_number < usize::MAX ==> {
            &&& launched == Ok::<Launched, ShellError>(
                Launched::Backgrounded(
                    JobHandle { job_number: old(manager)@.next_job_number as usize, pid: child },
                ),
            )
            &&& final(manager)@ == old(manager)@.register(child as int, plan.command_text@)
        },
        plan.background && old(manager)@.next_job_number >= usize::MAX ==> {
            &&& launched == Err::<Launched, ShellError>(ShellError::JobNumbersExhausted)
            &&& final(manager)@ == old(manager)@
        },
        !plan.background ==> {
            &&& final(manager)@ == old(manager)@
            &&& (launched == Ok::<Launched, ShellError>(Launched::Waited) || launched == Err::<
                Launched,
                ShellError,
            >(ShellError::WaitFailed))
        },
        old(manager)@.wf() ==> final(manager)@.wf(),
{
    if plan.background {
        register_background(manager, child, plan.command_text.clone())
    } else {
        foreground_outcome(wait_child(child, false))
    }
}

} // verus!
