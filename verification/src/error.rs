//! The ways in which a command line can be refused or fail to start.

use vstd::prelude::*;
use vstd::string::*;

verus! {

/// Which standard stream a redirection operator names.
#[derive(Clone, Copy, Debug, PartialEq, Eq, Structural)]
pub enum RedirectionKind {
    /// `<`: standard input is read from a file.
    Input,
    /// `>`: standard output is written to a file.
    Output,
}

/// Why a line was discarded or a launch did not happen.
#[derive(Clone, Copy, Debug, PartialEq, Eq, Structural)]
pub enum ShellError {
    /// A `<` or `>` was the last token, with no file after it.
    MissingRedirectionTarget(RedirectionKind),
    /// A `|` had no command before it or after it.
    PipelineSyntax,
    /// More than three commands were chained with `|`.
    TooManyPipes,
    /// Nothing was left to run.
    NoCommand,
    /// An argument holds a NUL character and cannot be passed to a program.
    InvalidArgument,
    /// The kernel refused to create a pipe, with this error number.
    PipeFailed(i32),
    /// The kernel refused to duplicate a descriptor, with this error number.
    DuplicateFailed(i32),
    /// Waiting for the foreground child failed.
    WaitFailed,
    /// Every job number has been used.
    JobNumbersExhausted,
}

impl ShellError {
    /// The text shown to the user for this error.
    pub open spec fn message_text(self) -> Seq<char> {
        match self {
            ShellError::MissingRedirectionTarget(RedirectionKind::Input) => {
                "Error: no input file specified after '<'"@
            },
            ShellError::MissingRedirectionTarget(RedirectionKind::Output) => {
                "Error: no output file specified after '>'"@
            },
            ShellError::PipelineSyntax => "Error: pipeline syntax error"@,
            ShellError::TooManyPipes => "Only accept up to 2 pipes"@,
            ShellError::NoCommand => "Error: no command specified"@,
            ShellError::InvalidArgument => "Error: argument contains a NUL character"@,
            ShellError::PipeFailed(_) => "Error: could not create pipe"@,
            ShellError::DuplicateFailed(_) => "Error: could not redirect stream"@,
            ShellError::WaitFailed => "Error: could not wait for command"@,
            ShellError::JobNumbersExhausted => "Error: no job number left"@,
        }
    }

    /// The text shown to the user for this error.
    pub fn message(&self) -> (text: String)
        ensures
            text@ == self.message_text(),
    {
        let text = match self {
            ShellError::MissingRedirectionTarget(RedirectionKind::Input) => {
                "Error: no input file specified after '<'"
            },
            ShellError::MissingRedirectionTarget(RedirectionKind::Output) => {
                "Error: no output file specified after '>'"
            },
            ShellError::PipelineSyntax => "Error: pipeline syntax error",
            ShellError::TooManyPipes => "Only accept up to 2 pipes",
            ShellError::NoCommand => "Error: no command specified",
            ShellError::InvalidArgument => "Error: argument contains a NUL character",
            ShellError::PipeFailed(_) => "Error: could not create pipe",
            ShellError::DuplicateFailed(_) => "Error: could not redirect stream",
            ShellError::WaitFailed => "Error: could not wait for command",
            ShellError::JobNumbersExhausted => "Error: no job number left",
        };
        String::from_str(text)
    }
}

} // verus!
