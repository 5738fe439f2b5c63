//! Splitting a line into words by the rules of a POSIX shell.

use vstd::prelude::*;

verus! {

/// The words that `shlex` splits a line into, in order: the items that the
/// iterator `shlex::Shlex` yields for the line until it ends. A line that
/// ends inside a quotation or after a lone backslash loses its last word.
pub uninterp spec fn shell_words(line: Seq<char>) -> Seq<Seq<char>>;

/// Whether `c` is one of the characters that separate words.
pub open spec fn is_blank(c: char) -> bool {
    c == ' ' || c == '\t' || c == '\n'
}

/// Whether a line holds nothing but characters that separate words.
pub open spec fn is_blank_line(line: Seq<char>) -> bool {
    forall|i: int| 0 <= i < line.len() ==> is_blank(#[trigger] line[i])
}

/// Splits a line into words.
///
/// Trusted: calls `shlex::Shlex::new` and collects what the iterator yields.
/// The contract names the result and claims one fact of it, which the
/// iterator's `next` shows: leading spaces, tabs and newlines are skipped
/// before a word starts, so a line of nothing else yields no word.
#[verifier::external_body]
pub(crate) fn split_words(line: &str) -> (words: Vec<String>)
    ensures
        words.deep_view() == shell_words(line@),
        is_blank_line(line@) ==> words@.len() == 0,
{
    shlex::Shlex::new(line).collect()
}

} // verus!
