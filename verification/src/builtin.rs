//! The builtin commands `exit`, `cd` and `jobs`.
//!
//! Printing and changing the working directory are the caller's work: the
//! functions here decide what is to be printed and where to go.

use vstd::prelude::*;
use vstd::string::*;
use crate::background::{listing, BackgroundManager, JobView};
use crate::text::{is_word, texts};

verus! {

/// Why a builtin refused to do its work.
#[derive(Clone, Copy, Debug, PartialEq, Eq, Structural)]
pub enum BuiltinError {
    /// `cd` was given more than one argument.
    TooManyArguments,
    /// `cd` without argument, and `HOME` is not set.
    HomeNotSet,
    /// The directory to change to does not exist.
    NotFound,
    /// The path to change to exists but is no directory.
    NotADirectory,
}

/// Where `cd` is asked to go.
pub enum CdTarget {
    /// No argument: the home directory.
    Home,
    /// The directory named by the argument.
    Path(String),
}

/// Where `cd` is asked to go, as contracts see it.
pub ghost enum CdTargetView {
    Home,
    Path(Seq<char>),
}

impl View for CdTarget {
    type V = CdTargetView;

    open spec fn view(&self) -> CdTargetView {
        match self {
            CdTarget::Home => CdTargetView::Home,
            CdTarget::Path(p) => CdTargetView::Path(p@),
        }
    }
}

/// What the first token of a command turned out to be.
pub enum BuiltinOutcome {
    /// `exit`: the jobs were waited for; these lines are to be printed and the
    /// dispatch loop is to end.
    Exit(Vec<String>),
    /// `jobs`: these lines are to be printed, and the loop goes on.
    Listed(Vec<String>),
    /// `cd`: the working directory is to be changed, and the loop goes on.
    ChangeDirectory(CdTarget),
    /// A builtin that refused its arguments.
    Failed(BuiltinError),
    /// No builtin: the command is an external program.
    NotBuiltin,
}

/// The outcome of a builtin as contracts see it.
pub ghost enum BuiltinOutcomeView {
    Exit(Seq<Seq<char>>),
    Listed(Seq<Seq<char>>),
    ChangeDirectory(CdTargetView),
    Failed(BuiltinError),
    NotBuiltin,
}

impl View for BuiltinOutcome {
    type V = BuiltinOutcomeView;

    open spec fn view(&self) -> BuiltinOutcomeView {
        match self {
            BuiltinOutcome::Exit(lines) => BuiltinOutcomeView::Exit(texts(lines@)),
            BuiltinOutcome::Listed(lines) => BuiltinOutcomeView::Listed(texts(lines@)),
            BuiltinOutcome::ChangeDirectory(target) => BuiltinOutcomeView::ChangeDirectory(target@),
            BuiltinOutcome::Failed(e) => BuiltinOutcomeView::Failed(*e),
            BuiltinOutcome::NotBuiltin => BuiltinOutcomeView::NotBuiltin,
        }
    }
}

/// What `exit` prints: the last three commands of the history, or all of them
/// if there are fewer, or a fixed line if there is none; then a farewell.
pub open spec fn exit_report(history: Seq<Seq<char>>) -> Seq<Seq<char>> {
    if history.len() == 0 {
        seq!["No valid commands were entered."@, "Exiting shell."@]
    } else if history.len() <= 3 {
        history.push("Exiting shell."@)
    } else {
        history.skip(history.len() - 3).push("Exiting shell."@)
    }
}

/// The lines that `exit` prints for this history.
pub fn execute_exit(history: &Vec<String>) -> (lines: Vec<String>)
    ensures
        texts(lines@) == exit_report(texts(history@)),
{
    let mut lines: Vec<String> = Vec::new();
    let n = history.len();
    if n == 0 {
        lines.push(String::from_str("No valid commands were entered."));
    } else {
        let start: usize = if n <= 3 {
            0
        } else {
            n - 3
        };
        let mut i: usize = start;
        while i < n
            invariant
                start <= i <= n,
                n == history@.len(),
                lines@.len() == i - start,
                forall|k: int| 0 <= k < i - start ==> (#[trigger] lines@[k])@ == history@[start + k]@,
            decreases n - i,
        {
            lines.push(history[i].clone());
            i += 1;
        }
    }
    let ghost shown = texts(lines@);
    lines.push(String::from_str("Exiting shell."));
    proof {
        assert(texts(lines@) =~= shown.push("Exiting shell."@));
        if n == 0 {
            assert(shown =~= seq!["No valid commands were entered."@]);
        } else if n <= 3 {
            assert(shown =~= texts(history@));
        } else {
            assert(shown =~= texts(history@).skip(n - 3));
        }
    }
    lines
}

/// The lines that `jobs` prints. The manager is not changed.
pub fn execute_jobs(bg_manager: &BackgroundManager) -> (lines: Vec<String>)
    ensures
        texts(lines@) == listing(bg_manager@.jobs),
{
    bg_manager.list_jobs()
}

/// Where `cd` is to go for these arguments: home without argument, the
/// argument if there is one, and nowhere if there are more.
pub open spec fn cd_target_of(args: Seq<Seq<char>>) -> Result<CdTargetView, BuiltinError> {
    if args.len() == 0 {
        Ok(CdTargetView::Home)
    } else if args.len() == 1 {
        Ok(CdTargetView::Path(args[0]))
    } else {
        Err(BuiltinError::TooManyArguments)
    }
}

/// The view of what `cd` made of its arguments.
pub open spec fn cd_result_view(r: Result<CdTarget, BuiltinError>) -> Result<
    CdTargetView,
    BuiltinError,
> {
    match r {
        Ok(target) => Ok(target@),
        Err(e) => Err(e),
    }
}

/// Decides where `cd` is to go for these arguments.
pub fn execute_cd(args: &Vec<String>) -> (target: Result<CdTarget, BuiltinError>)
    ensures
        cd_result_view(target) == cd_target_of(texts(args@)),
{
    if args.len() == 0 {
        Ok(CdTarget::Home)
    } else if args.len() > 1 {
        Err(BuiltinError::TooManyArguments)
    } else {
        Ok(CdTarget::Path(args[0].clone()))
    }
}

/// The directory that `cd` goes to: the argument, or the value of `HOME` when
/// there was no argument. Without argument and without `HOME`, `cd` fails.
pub fn resolve_cd(target: CdTarget, home: Option<String>) -> (path: Result<String, BuiltinError>)
    ensures
        match target {
            CdTarget::Path(p) => path == Ok::<String, BuiltinError>(p),
            CdTarget::Home => match home {
                Some(h) => path == Ok::<String, BuiltinError>(h),
                None => path == Err::<String, BuiltinError>(BuiltinError::HomeNotSet),
            },
        },
{
    match target {
        CdTarget::Path(p) => Ok(p),
        CdTarget::Home => match home {
            Some(h) => Ok(h),
            None => Err(BuiltinError::HomeNotSet),
        },
    }
}

/// Whether `cd` may go ahead, given what the file system says of its target: a
/// path that does not exist is not found; one that exists but is no directory
/// is refused as such. In both cases the working directory is left alone.
pub fn check_cd_target(present: bool, is_directory: bool) -> (checked: Result<(), BuiltinError>)
    ensures
        checked == if !present {
            Err::<(), BuiltinError>(BuiltinError::NotFound)
        } else if !is_directory {
            Err::<(), BuiltinError>(BuiltinError::NotADirectory)
        } else {
            Ok::<(), BuiltinError>(())
        },
{
    if !present {
        Err(BuiltinError::NotFound)
    } else if !is_directory {
        Err(BuiltinError::NotADirectory)
    } else {
        Ok(())
    }
}

/// What `cd` says of `target` when it fails.
pub open spec fn cd_error_text(error: BuiltinError, target: Seq<char>) -> Seq<char> {
    match error {
        BuiltinError::TooManyArguments => "cd: too many arguments"@,
        BuiltinError::HomeNotSet => "HOME environment variable not set"@,
        BuiltinError::NotFound => "cd: "@ + target + ": No such file or directory"@,
        BuiltinError::NotADirectory => "cd: "@ + target + ": Not a directory"@,
    }
}

/// What `cd` says of `target` when it fails.
pub fn cd_error_message(error: BuiltinError, target: &str) -> (text: String)
    ensures
        text@ == cd_error_text(error, target@),
{
    match error {
        BuiltinError::TooManyArguments => String::from_str("cd: too many arguments"),
        BuiltinError::HomeNotSet => String::from_str("HOME environment variable not set"),
        BuiltinError::NotFound => {
            let mut text = String::from_str("cd: ");
            text.append(target);
            text.append(": No such file or directory");
            text
        },
        BuiltinError::NotADirectory => {
            let mut text = String::from_str("cd: ");
            text.append(target);
            text.append(": Not a directory");
            text
        },
    }
}

/// What a command amounts to as a builtin. The names are tried in the order
/// `exit`, `cd`, `jobs`; any other command is no builtin.
pub open spec fn builtin_of(
    command: Seq<char>,
    args: Seq<Seq<char>>,
    history: Seq<Seq<char>>,
    jobs: Seq<JobView>,
) -> BuiltinOutcomeView {
    if command == "exit"@ {
        BuiltinOutcomeView::Exit(exit_report(history))
    } else if command == "cd"@ {
        match cd_target_of(args) {
            Ok(target) => BuiltinOutcomeView::ChangeDirectory(target),
            Err(e) => BuiltinOutcomeView::Failed(e),
        }
    } else if command == "jobs"@ {
        BuiltinOutcomeView::Listed(listing(jobs))
    } else {
        BuiltinOutcomeView::NotBuiltin
    }
}

/// Tries the builtins `exit`, `cd` and `jobs` on a command.
///
/// `exit` first waits, blocking, for every background job and forgets them,
/// then hands back what is to be printed. `jobs` hands back the listing and
/// `cd` the directory asked for; neither touches the manager. Any other
/// command is no builtin, and nothing happens.
pub fn execute_builtin(
    command: &str,
    args: &Vec<String>,
    history: &Vec<String>,
    bg_manager: &mut BackgroundManager,
) -> (outcome: BuiltinOutcome)
    ensures
        outcome@ == builtin_of(command@, texts(args@), texts(history@), old(bg_manager)@.jobs),
        final(bg_manager)@ == if command@ == "exit"@ {
            old(bg_manager)@.drained()
        } else {
            old(bg_manager)@
        },
        old(bg_manager)@.wf() ==> final(bg_manager)@.wf(),
{
    if is_word(command, "exit") {
        bg_manager.wait_all();
        BuiltinOutcome::Exit(execute_exit(history))
    } else if is_word(command, "cd") {
        match execute_cd(args) {
            Ok(target) => BuiltinOutcome::ChangeDirectory(target),
            Err(e) => BuiltinOutcome::Failed(e),
        }
    } else if is_word(command, "jobs") {
        BuiltinOutcome::Listed(execute_jobs(bg_manager))
    } else {
        BuiltinOutcome::NotBuiltin
    }
}

} // verus!
