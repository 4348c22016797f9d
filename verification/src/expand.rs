//! Expanding tokens, finding programs, and the prompt: the parts that are
//! plain text. Reading the environment and the file system is the caller's
//! work; the values read are handed in.

use vstd::prelude::*;
use vstd::string::*;
use vstd::std_specs::iter::IteratorSpec;
use crate::text::{contains_char, slice_text, split_on, text_of, texts};

verus! {

/// What stands for the home directory: the value of `HOME`, or a plain `~`
/// when it is not set.
pub open spec fn home_or_tilde(home: Option<Seq<char>>) -> Seq<char> {
    match home {
        Some(h) => h,
        None => seq!['~'],
    }
}

/// A token with its leading `~` replaced: `~` alone becomes the home
/// directory, `~/rest` becomes the home directory followed by `/rest`, and
/// every other token stays as it is.
pub open spec fn tilde_expansion(token: Seq<char>, home: Option<Seq<char>>) -> Seq<char> {
    if token == seq!['~'] {
        home_or_tilde(home)
    } else if token.len() >= 2 && token[0] == '~' && token[1] == '/' {
        home_or_tilde(home) + seq!['/'] + token.skip(2)
    } else {
        token
    }
}

/// Replaces a leading `~` of `token` by the home directory, given the value
/// of `HOME` if it is set.
pub fn expand_tilde(token: &str, home: Option<&str>) -> (expanded: String)
    ensures
        expanded@ == tilde_expansion(token@, slice_text(home)),
{
    let n = token.unicode_len();
    if n >= 1 && token.get_char(0) == '~' && (n == 1 || token.get_char(1) == '/') {
        let mut expanded = match home {
            Some(h) => String::from_str(h),
            None => {
                let mut tilde = String::new();
                tilde.push('~');
                tilde
            },
        };
        assert(expanded@ =~= home_or_tilde(slice_text(home)));
        if n == 1 {
            assert(token@ =~= seq!['~']);
        } else {
            expanded.push('/');
            expanded.append(token.substring_char(2, n));
            assert(token@.subrange(2, n as int) =~= token@.skip(2));
            assert(expanded@ =~= home_or_tilde(slice_text(home)) + seq!['/'] + token@.skip(2));
        }
        expanded
    } else {
        String::from_str(token)
    }
}

/// The name of the environment variable that a token asks for: what follows
/// its leading `$`, if it has one.
pub open spec fn variable_name_of(token: Seq<char>) -> Option<Seq<char>> {
    if token.len() > 0 && token[0] == '$' {
        Some(token.skip(1))
    } else {
        None
    }
}

/// The name of the environment variable that `token` asks for, if any.
pub fn variable_name(token: &str) -> (name: Option<String>)
    ensures
        text_of(name) == variable_name_of(token@),
{
    let n = token.unicode_len();
    if n >= 1 && token.get_char(0) == '$' {
        let name = String::from_str(token.substring_char(1, n));
        assert(token@.subrange(1, n as int) =~= token@.skip(1));
        Some(name)
    } else {
        None
    }
}

/// A token with its variable replaced: a token that starts with `$` becomes
/// the value of the variable it names, or a plain `$` if the variable is not
/// set; every other token stays as it is.
pub open spec fn variable_expansion(token: Seq<char>, value: Option<Seq<char>>) -> Seq<char> {
    if token.len() > 0 && token[0] == '$' {
        match value {
            Some(v) => v,
            None => seq!['$'],
        }
    } else {
        token
    }
}

/// Replaces a token that starts with `$` by `value`, the value of the
/// variable it names, if that is set.
pub fn get_env(token: &str, value: Option<&str>) -> (expanded: String)
    ensures
        expanded@ == variable_expansion(token@, slice_text(value)),
{
    let n = token.unicode_len();
    if n >= 1 && token.get_char(0) == '$' {
        match value {
            Some(v) => String::from_str(v),
            None => {
                let mut dollar = String::new();
                dollar.push('$');
                dollar
            },
        }
    } else {
        String::from_str(token)
    }
}

/// The file that a directory of the search path offers for a command. An
/// empty entry of the path means the current directory.
pub open spec fn candidate(directory: Seq<char>, command: Seq<char>) -> Seq<char> {
    (if directory.len() == 0 {
        seq!['.']
    } else {
        directory
    }) + seq!['/'] + command
}

/// The files to try for a command, in order: none for a command that holds a
/// `/`, else one per entry of the `:`-separated search path.
pub open spec fn candidates_of(path: Seq<char>, command: Seq<char>) -> Seq<Seq<char>> {
    if command.contains('/') {
        Seq::empty()
    } else {
        let directories = split_on(path, ':');
        Seq::new(directories.len(), |i: int| candidate(directories[i], command))
    }
}

/// Writes the candidate file for `directory` and `command`.
pub fn make_candidate(directory: &str, command: &str) -> (file: String)
    ensures
        file@ == candidate(directory@, command@),
{
    let mut file = if directory.is_empty() {
        let mut dot = String::new();
        dot.push('.');
        dot
    } else {
        String::from_str(directory)
    };
    file.push('/');
    file.append(command);
    assert(file@ =~= candidate(directory@, command@));
    file
}

/// The files to try for `command` along the search path `path`, in the order
/// of the path. The first of them that exists and is executable is the
/// program to run.
pub fn path_candidates(path: &str, command: &str) -> (files: Vec<String>)
    ensures
        texts(files@) == candidates_of(path@, command@),
{
    let mut files: Vec<String> = Vec::new();
    if contains_char(command, '/') {
        assert(texts(files@) =~= candidates_of(path@, command@));
        return files;
    }
    let mut directory = String::new();
    let ghost mut closed: Seq<Seq<char>> = Seq::empty();
    proof {
        assert(path@.take(0) =~= Seq::<char>::empty());
        assert(seq![Seq::<char>::empty()] =~= closed.push(directory@));
    }
    for c in it: path.chars()
        invariant
            it.seq() == path@,
            split_on(path@.take(it.index() as int), ':') == closed.push(directory@),
            files@.len() == closed.len(),
            forall|k: int|
                0 <= k < closed.len() ==> (#[trigger] files@[k])@ == candidate(closed[k], command@),
    {
        proof {
            let i = it.index() as int;
            let prefix = path@.take(i + 1);
            assert(prefix.drop_last() =~= path@.take(i));
            assert(prefix.last() == c);
            assert(closed.push(directory@).drop_last() =~= closed);
        }
        if c == ':' {
            files.push(make_candidate(directory.as_str(), command));
            proof {
                closed = closed.push(directory@);
            }
            directory = String::new();
        } else {
            directory.push(c);
        }
    }
    files.push(make_candidate(directory.as_str(), command));
    proof {
        assert(path@.take(path@.len() as int) =~= path@);
        assert(texts(files@) =~= candidates_of(path@, command@));
    }
    files
}

/// The permission bits that let someone execute a file: owner, group or
/// others.
pub const EXECUTE_BITS: u32 = 0o111;

/// Whether a file can be run as a program: it is a regular file, and at least
/// one of the execute bits of its mode is set.
pub open spec fn executable(is_file: bool, mode: u32) -> bool {
    is_file && mode & EXECUTE_BITS != 0
}

/// Whether a file with this kind and mode can be run as a program.
pub fn is_executable(is_file: bool, mode: u32) -> (r: bool)
    ensures
        r == executable(is_file, mode),
{
    is_file && mode & EXECUTE_BITS != 0
}

/// The place of the program among the candidates of a search, given for each
/// candidate whether it exists and can be run: the first that can, or none if
/// none can.
pub fn first_runnable(runnable: &Vec<bool>) -> (found: Option<usize>)
    ensures
        match found {
            Some(i) => i < runnable@.len() && runnable@[i as int] && forall|j: int|
                0 <= j < i ==> !runnable@[j],
            None => forall|j: int| 0 <= j < runnable@.len() ==> !runnable@[j],
        },
{
    let mut i: usize = 0;
    while i < runnable.len()
        invariant
            i <= runnable.len(),
            forall|j: int| 0 <= j < i ==> !runnable@[j],
        decreases runnable.len() - i,
    {
        if runnable[i] {
            return Some(i);
        }
        i += 1;
    }
    None
}

/// Every candidate holds a `/` and ends with the command, so a program found
/// on the search path is never searched for again.
pub proof fn lemma_candidate_shape(directory: Seq<char>, command: Seq<char>)
    ensures
        candidate(directory, command).contains('/'),
        candidate(directory, command).len() >= command.len(),
        candidate(directory, command).skip(
            candidate(directory, command).len() - command.len(),
        ) == command,
{
    let head = if directory.len() == 0 {
        seq!['.']
    } else {
        directory
    };
    let file = candidate(directory, command);
    assert(file =~= head + seq!['/'] + command);
    assert(file[head.len() as int] == '/');
    assert(file.skip(file.len() - command.len()) =~= command);
}

/// Whether a command is looked up on the search path: only a name without
/// `/` is.
pub fn needs_search(command: &str) -> (r: bool)
    ensures
        r == !command@.contains('/'),
{
    !contains_char(command, '/')
}

/// What is said of a command that no entry of the search path offers.
pub open spec fn not_found_text(command: Seq<char>) -> Seq<char> {
    command + ": command not found"@
}

/// What is said of a command that no entry of the search path offers.
pub fn not_found_message(command: &str) -> (text: String)
    ensures
        text@ == not_found_text(command@),
{
    let mut text = String::from_str(command);
    text.append(": command not found");
    text
}

/// The prompt: user, `@`, machine, `:`, working directory, and `> `.
pub open spec fn prompt_text(user: Seq<char>, machine: Seq<char>, directory: Seq<char>) -> Seq<
    char,
> {
    user + seq!['@'] + machine + seq![':'] + directory + "> "@
}

/// Writes the prompt for this user, machine and working directory.
pub fn build_prompt(user: &str, machine: &str, directory: &str) -> (prompt: String)
    ensures
        prompt@ == prompt_text(user@, machine@, directory@),
{
    let mut prompt = String::from_str(user);
    prompt.push('@');
    prompt.append(machine);
    prompt.push(':');
    prompt.append(directory);
    prompt.append("> ");
    assert(prompt@ =~= prompt_text(user@, machine@, directory@));
    prompt
}

} // verus!
