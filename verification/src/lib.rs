//! The decision core of a small interactive command interpreter: tokenizing a
//! line, recognising builtins, parsing redirections, splitting pipelines,
//! planning how children are wired together, and tracking background jobs.
//!
//! Every function here is verified against its contract. Creating processes,
//! opening files and printing are left to the program built around this crate.

pub mod text;
pub mod lexer;
pub mod sys;
pub mod background;
pub mod error;
pub mod redirection;
pub mod external;
pub mod piping;
pub mod builtin;
pub mod dispatch;
pub mod expand;
