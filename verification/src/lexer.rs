//! Splitting an input line into tokens.

use vstd::prelude::*;
use vstd::string::*;
use vstd::std_specs::iter::IteratorSpec;
use crate::text::{lemma_split_on, split_on, texts};

verus! {

/// An ordered list of tokens, in the order they appeared on the line.
#[derive(Debug, Default)]
pub struct TokenList {
    pub items: Vec<String>,
}

impl View for TokenList {
    type V = Seq<Seq<char>>;

    open spec fn view(&self) -> Seq<Seq<char>> {
        texts(self.items@)
    }
}

impl Clone for TokenList {
    fn clone(&self) -> (copy: Self)
        ensures
            copy@ == self@,
    {
        let mut copy = TokenList::new();
        let mut i: usize = 0;
        while i < self.items.len()
            invariant
                i <= self.items.len(),
                copy@ == self@.take(i as int),
            decreases self.items.len() - i,
        {
            copy.add_token(self.items[i].as_str());
            assert(copy@ =~= self@.take(i + 1));
            i += 1;
        }
        assert(self@.take(self.items.len() as int) =~= self@);
        copy
    }
}

impl TokenList {
    /// The empty list.
    pub fn new() -> (list: Self)
        ensures
            list@ == Seq::<Seq<char>>::empty(),
    {
        let list = TokenList { items: Vec::new() };
        assert(list@ =~= Seq::<Seq<char>>::empty());
        list
    }

    /// Appends a copy of `item` at the end.
    pub fn add_token(&mut self, item: &str)
        ensures
            final(self)@ == old(self)@.push(item@),
    {
        self.items.push(String::from_str(item));
        assert(self@ =~= old(self)@.push(item@));
    }

    /// The number of tokens held.
    pub fn size(&self) -> (n: usize)
        ensures
            n == self@.len(),
    {
        self.items.len()
    }
}

/// A line as read, without the newline that ends it, and without the
/// carriage return before that newline if there is one.
pub open spec fn without_line_ending(line: Seq<char>) -> Seq<char> {
    if line.len() > 0 && line.last() == '\n' {
        let cut = line.drop_last();
        if cut.len() > 0 && cut.last() == '\r' {
            cut.drop_last()
        } else {
            cut
        }
    } else {
        line
    }
}

/// Takes the line ending off a line as read: one trailing newline, and one
/// carriage return before it. A line without a trailing newline is unchanged.
pub fn strip_line_ending(line: &str) -> (stripped: String)
    ensures
        stripped@ == without_line_ending(line@),
{
    let n = line.unicode_len();
    if n > 0 && line.get_char(n - 1) == '\n' {
        let end = if n > 1 && line.get_char(n - 2) == '\r' {
            n - 2
        } else {
            n - 1
        };
        let stripped = String::from_str(line.substring_char(0, end));
        proof {
            let cut = line@.drop_last();
            assert(line@.subrange(0, n - 1) =~= cut);
            if n > 1 {
                assert(cut.last() == line@[n - 2]);
                assert(line@.subrange(0, n - 2) =~= cut.drop_last());
            }
        }
        stripped
    } else {
        String::from_str(line)
    }
}

/// The tokens of a line: the non-empty pieces between its space characters, in
/// order.
pub open spec fn tokens_of(line: Seq<char>) -> Seq<Seq<char>> {
    split_on(line, ' ').filter(|f: Seq<char>| f.len() > 0)
}

/// Every token is non-empty and holds no space.
pub proof fn lemma_tokens_are_words(line: Seq<char>)
    ensures
        forall|k: int|
            0 <= k < tokens_of(line).len() ==> (#[trigger] tokens_of(line)[k]).len() > 0,
        forall|k: int, i: int|
            0 <= k < tokens_of(line).len() && 0 <= i < tokens_of(line)[k].len()
                ==> #[trigger] tokens_of(line)[k][i] != ' ',
{
    let pieces = split_on(line, ' ');
    let nonempty = |f: Seq<char>| f.len() > 0;
    lemma_split_on(line, ' ');
    assert forall|k: int| 0 <= k < tokens_of(line).len() implies (#[trigger] tokens_of(
        line,
    )[k]).len() > 0 by {
        pieces.lemma_filter_pred(nonempty, k);
    }
    assert forall|k: int, i: int|
        0 <= k < tokens_of(line).len() && 0 <= i < tokens_of(line)[k].len() implies #[trigger] tokens_of(
        line,
    )[k][i] != ' ' by {
        let t = tokens_of(line)[k];
        assert(pieces.filter(nonempty).contains(t));
        pieces.lemma_filter_contains_rev(nonempty, t);
        let w = choose|w: int| 0 <= w < pieces.len() && pieces[w] == t;
        assert(pieces[w][i] != ' ');
    }
}

/// Splits `input` on space characters, dropping the empty pieces that runs of
/// spaces, or spaces at either end, leave behind.
pub fn get_tokens(input: &str) -> (tokens: TokenList)
    ensures
        tokens@ == tokens_of(input@),
{
    let mut tokens = TokenList::new();
    let mut current = String::new();
    let ghost nonempty = |f: Seq<char>| f.len() > 0;
    let ghost mut closed: Seq<Seq<char>> = Seq::empty();
    proof {
        reveal(Seq::filter);
        assert(input@.take(0) =~= Seq::<char>::empty());
        assert(seq![Seq::<char>::empty()] =~= closed.push(current@));
    }
    for c in it: input.chars()
        invariant
            it.seq() == input@,
            split_on(input@.take(it.index() as int), ' ') == closed.push(current@),
            tokens@ == closed.filter(nonempty),
            nonempty == (|f: Seq<char>| f.len() > 0),
    {
        let ghost i = it.index() as int;
        proof {
            reveal(Seq::filter);
            let prefix = input@.take(i + 1);
            assert(prefix.drop_last() =~= input@.take(i));
            assert(prefix.last() == c);
            assert(closed.push(current@).drop_last() =~= closed);
        }
        if c == ' ' {
            if !current.as_str().is_empty() {
                tokens.add_token(current.as_str());
            }
            proof {
                closed = closed.push(current@);
            }
            current = String::new();
        } else {
            current.push(c);
        }
    }
    proof {
        reveal(Seq::filter);
        assert(input@.take(input@.len() as int) =~= input@);
        assert(closed.push(current@).drop_last() =~= closed);
    }
    if !current.as_str().is_empty() {
        tokens.add_token(current.as_str());
    }
    tokens
}

} // verus!
