//! From the tokens of a line to what is to be run.

use vstd::prelude::*;
use vstd::string::*;
use crate::background::{BackgroundManager, JobView};
use crate::builtin::{
    builtin_of,
    cd_error_message,
    cd_error_text,
    execute_builtin,
    BuiltinOutcome,
    BuiltinOutcomeView,
    CdTarget,
    CdTargetView,
};
use crate::error::ShellError;
use crate::lexer::TokenList;
use crate::piping::{pipe_operator, pipeline_of, segment_views, split_pipeline, MAX_SEGMENTS};
use crate::redirection::{
    is_redirection_operator,
    lemma_dangling_operator_refused,
    missing_target,
    parse_redirection,
    redirection_of,
    Redirection,
    RedirectionView,
};
use crate::text::{is_symbol, lemma_split_without_separator, split_on, texts};

verus! {

/// The token `&`.
pub open spec fn background_operator() -> Seq<char> {
    seq!['&']
}

/// Whether a line asks for the background: its last token is `&`.
pub open spec fn asks_background(tokens: Seq<Seq<char>>) -> bool {
    tokens.len() > 0 && tokens.last() == background_operator()
}

/// Takes a trailing `&` off the tokens and says whether there was one. An `&`
/// anywhere else is an ordinary token.
pub fn strip_background(tokens: &mut Vec<String>) -> (background: bool)
    ensures
        background == asks_background(texts(old(tokens)@)),
        background ==> texts(final(tokens)@) == texts(old(tokens)@).drop_last(),
        !background ==> final(tokens)@ == old(tokens)@,
{
    let n = tokens.len();
    if n > 0 && is_symbol(&tokens[n - 1], '&') {
        let _ = tokens.pop();
        assert(texts(tokens@) =~= texts(old(tokens)@).drop_last());
        true
    } else {
        false
    }
}

/// What a line asks to run.
pub enum CommandLine {
    /// One command, with its redirections taken out.
    Single(Redirection),
    /// Two or three commands joined by pipes.
    Pipeline(Vec<TokenList>),
}

/// A command line as contracts see it.
pub ghost enum CommandLineView {
    Single(RedirectionView),
    Pipeline(Seq<Seq<Seq<char>>>),
}

impl View for CommandLine {
    type V = CommandLineView;

    open spec fn view(&self) -> CommandLineView {
        match self {
            CommandLine::Single(r) => CommandLineView::Single(r@),
            CommandLine::Pipeline(p) => CommandLineView::Pipeline(segment_views(p@)),
        }
    }
}

/// What the tokens of a line, without a trailing `&`, ask to run. The line is
/// first split at `|`. A line of one command has its redirections parsed and
/// must leave at least the program's name. The commands of a longer line are
/// taken as they are: redirection applies to single commands only. Whenever
/// this is an error, nothing is to be run.
pub open spec fn command_line_of(tokens: Seq<Seq<char>>) -> Result<CommandLineView, ShellError> {
    match pipeline_of(tokens) {
        Err(e) => Err(e),
        Ok(segments) => if segments.len() == 1 {
            match redirection_of(segments[0]) {
                Err(e) => Err(e),
                Ok(r) => if r.argv.len() == 0 {
                    Err(ShellError::NoCommand)
                } else {
                    Ok(CommandLineView::Single(r))
                },
            }
        } else {
            Ok(CommandLineView::Pipeline(segments))
        },
    }
}

/// The view of a parse result.
pub open spec fn command_line_result_view(r: Result<CommandLine, ShellError>) -> Result<
    CommandLineView,
    ShellError,
> {
    match r {
        Ok(line) => Ok(line@),
        Err(e) => Err(e),
    }
}

/// Decides what the tokens of a line ask to run, or why the line is discarded.
pub fn parse_command_line(tokens: &Vec<String>) -> (line: Result<CommandLine, ShellError>)
    ensures
        command_line_result_view(line) == command_line_of(texts(tokens@)),
{
    match split_pipeline(tokens) {
        Err(e) => Err(e),
        Ok(segments) => {
            if segments.len() == 1 {
                assert(segment_views(segments@)[0] == texts(segments@[0].items@));
                match parse_redirection(&segments[0].items) {
                    Err(e) => Err(e),
                    Ok(parsed) => {
                        if parsed.argv.len() == 0 {
                            Err(ShellError::NoCommand)
                        } else {
                            Ok(CommandLine::Single(parsed))
                        }
                    },
                }
            } else {
                Ok(CommandLine::Pipeline(segments))
            }
        },
    }
}

/// A line without `|` whose last token is `<` or `>`, with no such operator
/// before it, is discarded for the missing file: it asks for nothing to run.
pub proof fn lemma_missing_target_discards_line(tokens: Seq<Seq<char>>)
    requires
        tokens.len() > 0,
        is_redirection_operator(tokens.last()),
        forall|i: int| 0 <= i < tokens.len() - 1 ==> !is_redirection_operator(#[trigger] tokens[i]),
        forall|i: int| 0 <= i < tokens.len() ==> #[trigger] tokens[i] != pipe_operator(),
    ensures
        command_line_of(tokens) == Err::<CommandLineView, ShellError>(
            missing_target(tokens.last()),
        ),
{
    lemma_split_without_separator(tokens, pipe_operator());
    lemma_dangling_operator_refused(tokens, RedirectionView::empty());
}

/// A line of four or more commands is always discarded, as a syntax error if
/// one of its commands is empty and as too long otherwise: it asks for nothing
/// to run.
pub proof fn lemma_long_pipeline_discarded(tokens: Seq<Seq<char>>)
    requires
        split_on(tokens, pipe_operator()).len() > MAX_SEGMENTS,
    ensures
        command_line_of(tokens) is Err,
        pipeline_of(tokens) == Err::<Seq<Seq<Seq<char>>>, ShellError>(ShellError::TooManyPipes)
            || pipeline_of(tokens) == Err::<Seq<Seq<Seq<char>>>, ShellError>(
            ShellError::PipelineSyntax,
        ),
{
}

/// What the dispatch loop is to do with a line.
pub enum Action {
    /// The line holds no token: nothing happens.
    Nothing,
    /// Print these lines and end the loop.
    Exit(Vec<String>),
    /// Print these lines. The line has been added to the history.
    Print(Vec<String>),
    /// Change the working directory. If that succeeds, the line belongs in
    /// the history.
    ChangeDirectory(CdTarget),
    /// Start what the line asks for. If that succeeds, the line belongs in the
    /// history.
    Launch(CommandLine),
    /// Show this message and discard the line.
    Reject(String),
}

/// An action as contracts see it.
pub ghost enum ActionView {
    Nothing,
    Exit(Seq<Seq<char>>),
    Print(Seq<Seq<char>>),
    ChangeDirectory(CdTargetView),
    Launch(CommandLineView),
    Reject(Seq<char>),
}

impl View for Action {
    type V = ActionView;

    open spec fn view(&self) -> ActionView {
        match self {
            Action::Nothing => ActionView::Nothing,
            Action::Exit(lines) => ActionView::Exit(texts(lines@)),
            Action::Print(lines) => ActionView::Print(texts(lines@)),
            Action::ChangeDirectory(target) => ActionView::ChangeDirectory(target@),
            Action::Launch(line) => ActionView::Launch(line@),
            Action::Reject(message) => ActionView::Reject(message@),
        }
    }
}

/// What is to be done with the expanded tokens of a line, without a trailing
/// `&`. The first token is tried as a builtin, with the other tokens as its
/// arguments. A line that is no builtin is parsed as a command or a pipeline,
/// and is rejected with the error's message if that fails.
pub open spec fn action_of(
    tokens: Seq<Seq<char>>,
    history: Seq<Seq<char>>,
    jobs: Seq<JobView>,
) -> ActionView {
    if tokens.len() == 0 {
        ActionView::Nothing
    } else {
        match builtin_of(tokens[0], tokens.skip(1), history, jobs) {
            BuiltinOutcomeView::Exit(lines) => ActionView::Exit(lines),
            BuiltinOutcomeView::Listed(lines) => ActionView::Print(lines),
            BuiltinOutcomeView::ChangeDirectory(target) => ActionView::ChangeDirectory(target),
            BuiltinOutcomeView::Failed(e) => ActionView::Reject(
                cd_error_text(e, Seq::<char>::empty()),
            ),
            BuiltinOutcomeView::NotBuiltin => match command_line_of(tokens) {
                Ok(line) => ActionView::Launch(line),
                Err(e) => ActionView::Reject(e.message_text()),
            },
        }
    }
}

/// Adds a line to the history, after everything that is in it.
pub fn record(history: &mut Vec<String>, line: &str)
    ensures
        texts(final(history)@) == texts(old(history)@).push(line@),
{
    history.push(String::from_str(line));
    assert(texts(history@) =~= texts(old(history)@).push(line@));
}

/// Decides what to do with one line, given its expanded tokens without a
/// trailing `&`, and the line itself as it goes into the history.
///
/// A builtin is carried out as far as the library can: `exit` waits for the
/// background jobs and forgets them, and a listing of jobs puts the line into
/// the history. In every other case the history and the job manager stay as
/// they are, and the caller adds the line to the history once a change of
/// directory or a launch has succeeded.
pub fn dispatch(
    tokens: &Vec<String>,
    line: &str,
    history: &mut Vec<String>,
    manager: &mut BackgroundManager,
) -> (action: Action)
    ensures
        action@ == action_of(texts(tokens@), texts(old(history)@), old(manager)@.jobs),
        texts(final(history)@) == if action is Print {
            texts(old(history)@).push(line@)
        } else {
            texts(old(history)@)
        },
        final(manager)@ == if action is Exit {
            old(manager)@.drained()
        } else {
            old(manager)@
        },
        old(manager)@.wf() ==> final(manager)@.wf(),
{
    if tokens.len() == 0 {
        return Action::Nothing;
    }
    let mut args: Vec<String> = Vec::new();
    let mut i: usize = 1;
    while i < tokens.len()
        invariant
            1 <= i <= tokens.len(),
            args@.len() == i - 1,
            forall|k: int| 0 <= k < i - 1 ==> (#[trigger] args@[k])@ == tokens@[k + 1]@,
        decreases tokens.len() - i,
    {
        args.push(tokens[i].clone());
        i += 1;
    }
    proof {
        assert(texts(args@) =~= texts(tokens@).skip(1));
        assert(texts(tokens@)[0] == tokens@[0]@);
    }
    match execute_builtin(tokens[0].as_str(), &args, history, manager) {
        BuiltinOutcome::Exit(lines) => Action::Exit(lines),
        BuiltinOutcome::Listed(lines) => {
            record(history, line);
            Action::Print(lines)
        },
        BuiltinOutcome::ChangeDirectory(target) => Action::ChangeDirectory(target),
        BuiltinOutcome::Failed(e) => {
            let message = cd_error_message(e, "");
            proof {
                reveal_strlit("");
                assert(""@ =~= Seq::<char>::empty());
            }
            Action::Reject(message)
        },
        BuiltinOutcome::NotBuiltin => match parse_command_line(tokens) {
            Ok(parsed) => Action::Launch(parsed),
            Err(e) => Action::Reject(e.message()),
        },
    }
}

} // verus!
