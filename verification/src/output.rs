//! Rendering: from the lines queued in a cycle to the text written to the
//! console.

use vstd::prelude::*;
use crate::events::PrintConsoleLine;

verus! {

/// The prompt: the mark after which the console waits for a line.
pub open spec fn caret_text() -> Seq<char> {
    "> "@
}

/// The given lines as text, each followed by a line feed.
pub open spec fn printed_text(lines: Seq<Seq<char>>) -> Seq<char>
    decreases lines.len(),
{
    if lines.len() == 0 {
        Seq::empty()
    } else {
        printed_text(lines.drop_last()) + lines.last() + "\n"@
    }
}

/// What a cycle writes to the console for the lines queued in it: the
/// lines and after them the prompt, or nothing at all where no line was
/// queued.
pub open spec fn console_output(lines: Seq<Seq<char>>) -> Seq<char> {
    if lines.len() == 0 {
        Seq::empty()
    } else {
        printed_text(lines) + caret_text()
    }
}

/// A cycle without lines writes nothing, and so no second prompt; a cycle
/// with lines ends what it writes with the prompt.
pub proof fn lemma_prompt_follows_output(lines: Seq<Seq<char>>)
    ensures
        lines.len() == 0 ==> console_output(lines) == Seq::<char>::empty(),
        lines.len() > 0 ==> console_output(lines).subrange(
            console_output(lines).len() - caret_text().len(),
            console_output(lines).len() as int,
        ) == caret_text(),
{
}

/// Lines are written in the order in which they were queued.
pub proof fn lemma_printed_in_order(earlier: Seq<Seq<char>>, later: Seq<Seq<char>>)
    ensures
        printed_text(earlier + later) == printed_text(earlier) + printed_text(later),
    decreases later.len(),
{
    if later.len() > 0 {
        assert((earlier + later).drop_last() =~= earlier + later.drop_last());
        lemma_printed_in_order(earlier, later.drop_last());
    }
}

/// The prompt.
pub fn caret() -> (r: &'static str)
    ensures
        r@ == caret_text(),
{
    "> "
}

/// Renders the queued lines in the order in which they were queued and
/// empties the queue, so that each line is written once. The text is for
/// the caller to write to the console as it is.
pub fn output_console_lines(lines: &mut Vec<PrintConsoleLine>) -> (text: String)
    ensures
        final(lines)@.len() == 0,
        text@ == console_output(old(lines).deep_view()),
{
    let ghost queued = lines.deep_view();
    let mut text = String::new();
    let mut i: usize = 0;
    while i < lines.len()
        invariant
            i <= lines@.len(),
            queued == lines.deep_view(),
            text@ == printed_text(queued.take(i as int)),
        decreases lines@.len() - i,
    {
        proof {
            let upto = queued.take(i as int + 1);
            assert(upto.drop_last() =~= queued.take(i as int));
        }
        text.append(lines[i].line.as_str());
        text.append("\n");
        i += 1;
    }
    assert(queued.take(i as int) =~= queued);
    if i > 0 {
        text.append(caret());
    }
    lines.clear();
    text
}

} // verus!
