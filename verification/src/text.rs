//! Small helpers on strings and lists of strings, stated over their views.

use vstd::prelude::*;
use vstd::string::*;
use vstd::std_specs::iter::IteratorSpec;

verus! {

/// The contents of a list of strings, each string as its sequence of characters.
pub open spec fn texts(v: Seq<String>) -> Seq<Seq<char>> {
    Seq::new(v.len(), |i: int| v[i]@)
}

/// The contents of an optional string.
pub open spec fn text_of(s: Option<String>) -> Option<Seq<char>> {
    match s {
        Some(s) => Some(s@),
        None => None,
    }
}

/// The contents of an optional string slice.
pub open spec fn slice_text(s: Option<&str>) -> Option<Seq<char>> {
    match s {
        Some(s) => Some(s@),
        None => None,
    }
}

/// The pieces of `line` between occurrences of `sep`, empty pieces included. A
/// line with `k` separators has `k + 1` pieces.
pub open spec fn split_on<T>(line: Seq<T>, sep: T) -> Seq<Seq<T>>
    decreases line.len(),
{
    if line.len() == 0 {
        seq![Seq::<T>::empty()]
    } else {
        let before = split_on(line.drop_last(), sep);
        if line.last() == sep {
            before.push(Seq::<T>::empty())
        } else {
            before.drop_last().push(before.last().push(line.last()))
        }
    }
}

/// Splitting always yields at least one piece, and no piece holds the separator.
pub proof fn lemma_split_on<T>(line: Seq<T>, sep: T)
    ensures
        split_on(line, sep).len() >= 1,
        forall|k: int, i: int|
            0 <= k < split_on(line, sep).len() && 0 <= i < split_on(line, sep)[k].len()
                ==> #[trigger] split_on(line, sep)[k][i] != sep,
    decreases line.len(),
{
    if line.len() > 0 {
        lemma_split_on(line.drop_last(), sep);
    }
}

/// A line without the separator is one piece: itself.
pub proof fn lemma_split_without_separator<T>(line: Seq<T>, sep: T)
    requires
        forall|i: int| 0 <= i < line.len() ==> #[trigger] line[i] != sep,
    ensures
        split_on(line, sep) == seq![line],
    decreases line.len(),
{
    if line.len() == 0 {
        assert(line =~= Seq::<T>::empty());
    } else {
        let init = line.drop_last();
        lemma_split_without_separator(init, sep);
        assert(init.push(line.last()) =~= line);
        let before = seq![init];
        assert(before.drop_last() =~= Seq::<Seq<T>>::empty());
        assert(before.drop_last().push(line) =~= seq![line]);
    }
}

/// `String::push` appends exactly one character to the end of the string.
pub assume_specification[ String::push ](s: &mut String, c: char)
    ensures
        final(s)@ == old(s)@.push(c),
;

/// Whether `word` is the one-character string made of `c`.
pub fn is_symbol(word: &String, c: char) -> (r: bool)
    ensures
        r == (word@ == seq![c]),
{
    let s = word.as_str();
    if s.unicode_len() == 1 {
        let first = s.get_char(0);
        proof {
            if first == c {
                assert(word@ =~= seq![c]);
            }
        }
        first == c
    } else {
        false
    }
}

/// Whether `word` reads exactly as `name`.
pub fn is_word(word: &str, name: &str) -> (r: bool)
    ensures
        r == (word@ == name@),
{
    let a = String::from_str(word);
    let b = String::from_str(name);
    a == b
}

/// Whether the character `c` occurs in `s`.
pub fn contains_char(s: &str, c: char) -> (r: bool)
    ensures
        r == s@.contains(c),
{
    let mut found = false;
    for x in it: s.chars()
        invariant
            it.seq() == s@,
            found == s@.take(it.index() as int).contains(c),
    {
        proof {
            let i = it.index() as int;
            let next = s@.take(i + 1);
            assert(next.drop_last() =~= s@.take(i));
            assert(next.last() == x);
            if s@.take(i).contains(c) {
                let w = choose|w: int| 0 <= w < i && s@.take(i)[w] == c;
                assert(next[w] == c);
            }
            if x == c {
                assert(next[i] == c);
            }
            if next.contains(c) {
                let w = choose|w: int| 0 <= w < i + 1 && next[w] == c;
                if w < i {
                    assert(s@.take(i)[w] == c);
                }
            }
        }
        if x == c {
            found = true;
        }
    }
    proof {
        assert(s@.take(s@.len() as int) =~= s@);
    }
    found
}

/// Whether some word holds a NUL character. Such a word cannot be handed to a
/// program as an argument.
pub open spec fn has_nul(words: Seq<Seq<char>>) -> bool {
    exists|k: int| 0 <= k < words.len() && (#[trigger] words[k]).contains('\0')
}

/// Whether some word holds a NUL character.
pub fn any_has_nul(words: &Vec<String>) -> (r: bool)
    ensures
        r == has_nul(texts(words@)),
{
    let mut i: usize = 0;
    while i < words.len()
        invariant
            i <= words.len(),
            !has_nul(texts(words@).take(i as int)),
        decreases words.len() - i,
    {
        if contains_char(words[i].as_str(), '\0') {
            assert(texts(words@)[i as int].contains('\0'));
            return true;
        }
        proof {
            let all = texts(words@);
            if has_nul(all.take(i + 1)) {
                let k = choose|k: int|
                    0 <= k < i + 1 && (#[trigger] all.take(i + 1)[k]).contains('\0');
                if k < i {
                    assert(all.take(i as int)[k].contains('\0'));
                }
            }
        }
        i += 1;
    }
    proof {
        assert(texts(words@).take(words.len() as int) =~= texts(words@));
    }
    false
}

/// The words of a list written on one line, with one space between neighbours.
pub open spec fn joined(words: Seq<Seq<char>>) -> Seq<char>
    decreases words.len(),
{
    if words.len() == 0 {
        Seq::empty()
    } else if words.len() == 1 {
        words[0]
    } else {
        joined(words.drop_last()) + seq![' '] + words.last()
    }
}

/// Writes the words on one line, with one space between neighbours.
pub fn join_words(words: &Vec<String>) -> (line: String)
    ensures
        line@ == joined(texts(words@)),
{
    let mut line = String::new();
    let ghost all = texts(words@);
    let mut i: usize = 0;
    proof {
        assert(all.take(0) =~= Seq::<Seq<char>>::empty());
    }
    while i < words.len()
        invariant
            i <= words.len(),
            all == texts(words@),
            line@ == joined(all.take(i as int)),
        decreases words.len() - i,
    {
        proof {
            let next = all.take(i + 1);
            assert(next.drop_last() =~= all.take(i as int));
            assert(next.last() == words@[i as int]@);
            if i == 0 {
                assert(Seq::<char>::empty() + words@[0]@ =~= words@[0]@);
            }
        }
        if i > 0 {
            line.push(' ');
        }
        line.append(words[i].as_str());
        proof {
            if i > 0 {
                assert(line@ =~= joined(all.take(i as int)) + seq![' '] + words@[i as int]@);
            }
        }
        i += 1;
    }
    proof {
        assert(all.take(words.len() as int) =~= all);
    }
    line
}

/// The character for a single decimal digit.
pub open spec fn digit_char(d: nat) -> char
    recommends
        d < 10,
{
    (('0' as u8) + d) as char
}

/// A natural number written in decimal, without leading zeros.
pub open spec fn decimal(n: nat) -> Seq<char>
    decreases n,
{
    if n < 10 {
        seq![digit_char(n)]
    } else {
        decimal(n / 10).push(digit_char(n % 10))
    }
}

/// An integer written in decimal, with a minus sign in front when negative.
pub open spec fn signed_decimal(n: int) -> Seq<char> {
    if n < 0 {
        seq!['-'] + decimal((-n) as nat)
    } else {
        decimal(n as nat)
    }
}

/// Appends `n`, written in decimal, to `out`.
pub fn push_decimal(out: &mut String, n: u64)
    ensures
        final(out)@ == old(out)@ + decimal(n as nat),
    decreases n,
{
    if n >= 10 {
        push_decimal(out, n / 10);
    }
    let d: u8 = (n % 10) as u8;
    let c: char = (48u8 + d) as char;
    assert(c == digit_char((n % 10) as nat));
    out.push(c);
    assert(out@ =~= old(out)@ + decimal(n as nat));
}

/// Appends `n`, written in decimal with its sign, to `out`.
pub fn push_signed_decimal(out: &mut String, n: i64)
    ensures
        final(out)@ == old(out)@ + signed_decimal(n as int),
{
    if n < 0 {
        out.push('-');
        let magnitude: u64 = if n == i64::MIN {
            9223372036854775808u64
        } else {
            (-n) as u64
        };
        push_decimal(out, magnitude);
        assert(out@ =~= old(out)@ + signed_decimal(n as int));
    } else {
        push_decimal(out, n as u64);
    }
}

} // verus!
