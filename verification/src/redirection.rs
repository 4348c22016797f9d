//! Taking the `<` and `>` operators, with their files, out of a command.

use vstd::prelude::*;
use vstd::string::*;
use crate::error::{RedirectionKind, ShellError};
use crate::text::{is_symbol, text_of, texts};

verus! {

/// A command with its redirections taken out.
pub struct Redirection {
    /// The program and its arguments, in the order of the line.
    pub argv: Vec<String>,
    /// The file to read standard input from, if any.
    pub input_file: Option<String>,
    /// The file to write standard output to, if any.
    pub output_file: Option<String>,
}

/// A parsed command as contracts see it.
pub ghost struct RedirectionView {
    pub argv: Seq<Seq<char>>,
    pub input_file: Option<Seq<char>>,
    pub output_file: Option<Seq<char>>,
}

impl View for Redirection {
    type V = RedirectionView;

    open spec fn view(&self) -> RedirectionView {
        RedirectionView {
            argv: texts(self.argv@),
            input_file: text_of(self.input_file),
            output_file: text_of(self.output_file),
        }
    }
}

impl RedirectionView {
    /// Nothing read yet: no arguments, no files.
    pub open spec fn empty() -> RedirectionView {
        RedirectionView { argv: Seq::empty(), input_file: None, output_file: None }
    }
}

/// The token `<`.
pub open spec fn input_operator() -> Seq<char> {
    seq!['<']
}

/// The token `>`.
pub open spec fn output_operator() -> Seq<char> {
    seq!['>']
}

/// Reads `tokens` from the left, starting from what `so_far` already holds. An
/// operator takes the token right after it as its file, whatever that token is,
/// and replaces a file named earlier for the same stream; an operator with
/// nothing after it fails. Every other token becomes the next argument.
pub open spec fn scan_redirection(tokens: Seq<Seq<char>>, so_far: RedirectionView) -> Result<
    RedirectionView,
    ShellError,
>
    decreases tokens.len(),
{
    if tokens.len() == 0 {
        Ok(so_far)
    } else if tokens[0] == input_operator() {
        if tokens.len() == 1 {
            Err(ShellError::MissingRedirectionTarget(RedirectionKind::Input))
        } else {
            scan_redirection(
                tokens.skip(2),
                RedirectionView { input_file: Some(tokens[1]), ..so_far },
            )
        }
    } else if tokens[0] == output_operator() {
        if tokens.len() == 1 {
            Err(ShellError::MissingRedirectionTarget(RedirectionKind::Output))
        } else {
            scan_redirection(
                tokens.skip(2),
                RedirectionView { output_file: Some(tokens[1]), ..so_far },
            )
        }
    } else {
        scan_redirection(
            tokens.skip(1),
            RedirectionView { argv: so_far.argv.push(tokens[0]), ..so_far },
        )
    }
}

/// What a command's tokens parse to.
pub open spec fn redirection_of(tokens: Seq<Seq<char>>) -> Result<RedirectionView, ShellError> {
    scan_redirection(tokens, RedirectionView::empty())
}

/// The view of a parse result.
pub open spec fn redirection_result_view(r: Result<Redirection, ShellError>) -> Result<
    RedirectionView,
    ShellError,
> {
    match r {
        Ok(parsed) => Ok(parsed@),
        Err(e) => Err(e),
    }
}

/// Separates the arguments of a command from its redirections. The whole
/// command is refused when an operator is its last token.
pub fn parse_redirection(tokens: &Vec<String>) -> (parsed: Result<Redirection, ShellError>)
    ensures
        redirection_result_view(parsed) == redirection_of(texts(tokens@)),
{
    let mut argv: Vec<String> = Vec::new();
    let mut input_file: Option<String> = None;
    let mut output_file: Option<String> = None;
    let ghost all = texts(tokens@);
    let mut i: usize = 0;
    proof {
        assert(all.skip(0) =~= all);
        assert(texts(argv@) =~= Seq::<Seq<char>>::empty());
    }
    while i < tokens.len()
        invariant
            i <= tokens.len(),
            all == texts(tokens@),
            redirection_of(all) == scan_redirection(
                all.skip(i as int),
                RedirectionView {
                    argv: texts(argv@),
                    input_file: text_of(input_file),
                    output_file: text_of(output_file),
                },
            ),
        decreases tokens.len() - i,
    {
        let ghost rest = all.skip(i as int);
        let ghost args = texts(argv@);
        proof {
            assert(rest[0] == tokens@[i as int]@);
        }
        if is_symbol(&tokens[i], '<') {
            if i + 1 < tokens.len() {
                proof {
                    assert(rest[1] == tokens@[i + 1]@);
                    assert(rest.skip(2) =~= all.skip(i + 2));
                }
                input_file = Some(tokens[i + 1].clone());
                i += 2;
            } else {
                return Err(ShellError::MissingRedirectionTarget(RedirectionKind::Input));
            }
        } else if is_symbol(&tokens[i], '>') {
            if i + 1 < tokens.len() {
                proof {
                    assert(rest[1] == tokens@[i + 1]@);
                    assert(rest.skip(2) =~= all.skip(i + 2));
                }
                output_file = Some(tokens[i + 1].clone());
                i += 2;
            } else {
                return Err(ShellError::MissingRedirectionTarget(RedirectionKind::Output));
            }
        } else {
            argv.push(tokens[i].clone());
            proof {
                assert(rest.skip(1) =~= all.skip(i + 1));
                assert(texts(argv@) =~= args.push(rest[0]));
            }
            i += 1;
        }
    }
    Ok(Redirection { argv, input_file, output_file })
}

/// Whether a token is `<` or `>`.
pub open spec fn is_redirection_operator(token: Seq<char>) -> bool {
    token == input_operator() || token == output_operator()
}

/// The error for a redirection operator that has no file after it.
pub open spec fn missing_target(operator: Seq<char>) -> ShellError {
    if operator == input_operator() {
        ShellError::MissingRedirectionTarget(RedirectionKind::Input)
    } else {
        ShellError::MissingRedirectionTarget(RedirectionKind::Output)
    }
}

/// Parsing redirections fails only on a command whose last token is `<` or
/// `>`, and the error names that operator.
pub proof fn lemma_redirection_error(tokens: Seq<Seq<char>>, so_far: RedirectionView)
    ensures
        scan_redirection(tokens, so_far) matches Err(e) ==> tokens.len() > 0
            && is_redirection_operator(tokens.last()) && e == missing_target(tokens.last()),
    decreases tokens.len(),
{
    reveal_with_fuel(scan_redirection, 2);
    if tokens.len() == 0 {
    } else if is_redirection_operator(tokens[0]) {
        if tokens.len() >= 2 {
            let rest = tokens.skip(2);
            let next = if tokens[0] == input_operator() {
                RedirectionView { input_file: Some(tokens[1]), ..so_far }
            } else {
                RedirectionView { output_file: Some(tokens[1]), ..so_far }
            };
            lemma_redirection_error(rest, next);
            if rest.len() > 0 {
                assert(rest.last() == tokens.last());
            }
        }
    } else {
        let rest = tokens.skip(1);
        lemma_redirection_error(
            rest,
            RedirectionView { argv: so_far.argv.push(tokens[0]), ..so_far },
        );
        if rest.len() > 0 {
            assert(rest.last() == tokens.last());
        }
    }
}

/// A command that ends in `<` or `>`, with no such operator before it, is
/// refused for the missing file: nothing of it is to be run.
pub proof fn lemma_dangling_operator_refused(tokens: Seq<Seq<char>>, so_far: RedirectionView)
    requires
        tokens.len() > 0,
        is_redirection_operator(tokens.last()),
        forall|i: int| 0 <= i < tokens.len() - 1 ==> !is_redirection_operator(#[trigger] tokens[i]),
    ensures
        scan_redirection(tokens, so_far) == Err::<RedirectionView, ShellError>(
            missing_target(tokens.last()),
        ),
    decreases tokens.len(),
{
    if tokens.len() > 1 {
        let rest = tokens.skip(1);
        assert(rest.last() == tokens.last());
        assert forall|i: int| 0 <= i < rest.len() - 1 implies !is_redirection_operator(
            #[trigger] rest[i],
        ) by {
            assert(rest[i] == tokens[i + 1]);
        }
        lemma_dangling_operator_refused(
            rest,
            RedirectionView { argv: so_far.argv.push(tokens[0]), ..so_far },
        );
    }
}

} // verus!
