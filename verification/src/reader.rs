//! The reader of lines: what it sends of a line that it has read, and when
//! it stops.

use vstd::prelude::*;

verus! {

/// Whether `c` is white space: whether it has the Unicode property
/// `White_Space`, which is what `char::is_whitespace` tells of it.
pub uninterp spec fn white_space(c: char) -> bool;

/// Whether `text` holds nothing but white space.
pub open spec fn all_white_space(text: Seq<char>) -> bool {
    forall|i: int| 0 <= i < text.len() ==> white_space(#[trigger] text[i])
}

/// Whether `part` is the stretch of `line` from `from` up to `to`, with
/// nothing but white space before it and after it and none at its own
/// start and end.
pub open spec fn trims_at(part: Seq<char>, line: Seq<char>, from: int, to: int) -> bool {
    &&& 0 <= from <= to <= line.len()
    &&& part == line.subrange(from, to)
    &&& all_white_space(line.subrange(0, from))
    &&& all_white_space(line.subrange(to, line.len() as int))
    &&& from < to ==> !white_space(line[from]) && !white_space(line[to - 1])
}

/// Whether `part` is `line` without the white space at its start and at
/// its end: the longest stretch of `line` that neither starts nor ends
/// with white space.
pub open spec fn is_trimmed(part: Seq<char>, line: Seq<char>) -> bool {
    exists|from: int, to: int| trims_at(part, line, from, to)
}

/// A line has one trimmed form only.
pub proof fn lemma_trimmed_is_one(first: Seq<char>, second: Seq<char>, line: Seq<char>)
    requires
        is_trimmed(first, line),
        is_trimmed(second, line),
    ensures
        first == second,
{
    let (f1, t1) = choose|from: int, to: int| trims_at(first, line, from, to);
    let (f2, t2) = choose|from: int, to: int| trims_at(second, line, from, to);
    if f1 < t1 {
        lemma_trims_at_same_place(first, second, line, f1, t1, f2, t2);
        lemma_trims_at_same_place(second, first, line, f2, t2, f1, t1);
    } else if f2 < t2 {
        lemma_trims_at_same_place(second, first, line, f2, t2, f1, t1);
    }
    assert(first =~= second);
}

/// Where a stretch that is trimmed is not empty, any other trimmed stretch
/// starts no later and ends no earlier.
proof fn lemma_trims_at_same_place(
    first: Seq<char>,
    second: Seq<char>,
    line: Seq<char>,
    f1: int,
    t1: int,
    f2: int,
    t2: int,
)
    requires
        trims_at(first, line, f1, t1),
        trims_at(second, line, f2, t2),
        f1 < t1,
    ensures
        f2 <= f1,
        t1 <= t2,
        f2 < t2,
{
    let before = line.subrange(0, f2);
    let after = line.subrange(t2, line.len() as int);
    if f1 < f2 {
        assert(before[f1] == line[f1]);
    }
    if t2 < t1 {
        assert(after[t1 - 1 - t2] == line[t1 - 1]);
    }
}

/// A line that neither starts nor ends with white space is its own trimmed
/// form, and a line of nothing but white space has the empty one.
pub proof fn lemma_trimmed_lines(line: Seq<char>)
    ensures
        line.len() > 0 && !white_space(line[0]) && !white_space(line.last()) ==> is_trimmed(
            line,
            line,
        ),
        all_white_space(line) ==> is_trimmed(Seq::empty(), line),
{
    if line.len() > 0 && !white_space(line[0]) && !white_space(line.last()) {
        assert(line.subrange(0, line.len() as int) =~= line);
        assert(trims_at(line, line, 0, line.len() as int));
    }
    if all_white_space(line) {
        assert(line.subrange(0, 0) =~= Seq::<char>::empty());
        assert(line.subrange(0, line.len() as int) =~= line);
        assert(trims_at(Seq::empty(), line, 0, 0));
    }
}

/// Takes the white space off both ends of a line.
///
/// Trusted: calls `str::trim`, which returns a slice of the string with
/// leading and trailing white space removed, white space being the
/// characters with the Unicode property `White_Space`.
#[verifier::external_body]
pub(crate) fn trim(line: &str) -> (r: &str)
    ensures
        is_trimmed(r@, line@),
        r@.len() > 0 ==> !white_space(r@[0]) && !white_space(r@.last()),
{
    line.trim()
}

/// What the reader does after an attempt to read a line.
#[derive(Clone, Debug, PartialEq, Eq)]
pub enum ReaderStep {
    /// It sends this text to the console and reads on.
    Send(String),
    /// It stops: the console gets no more lines from it.
    Stop,
}

/// Whether an attempt to read gave a line: `read` is the number of bytes
/// read, or `None` where the attempt failed. A failed attempt gave none,
/// and neither did one that read nothing, which is the end of the input.
pub open spec fn line_was_read(read: Option<usize>) -> bool {
    read matches Some(n) && n > 0
}

/// Decides what the reader does after an attempt to read a line into
/// `line`. Where a line was read, it is sent without the white space at
/// its ends; else the reader stops, and it alone: the console runs on.
pub fn reader_step(read: Option<usize>, line: &str) -> (step: ReaderStep)
    ensures
        match step {
            ReaderStep::Send(text) => line_was_read(read) && is_trimmed(text@, line@),
            ReaderStep::Stop => !line_was_read(read),
        },
{
    match read {
        Some(n) => if n > 0 {
            ReaderStep::Send(trim(line).to_owned())
        } else {
            ReaderStep::Stop
        },
        None => ReaderStep::Stop,
    }
}

} // verus!
