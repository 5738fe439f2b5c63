//! The order of a cycle: input, then the commands if any were entered, then
//! what comes after the commands.

use vstd::prelude::*;
use crate::events::{ConsoleCommandEntered, EnteredCommand};
use crate::output::console_output;
use crate::router::{routed_commands, routed_lines};

verus! {

/// The sets of work of a cycle.
#[derive(Clone, Copy, Debug, Hash, PartialEq, Eq, Structural)]
pub enum ConsoleSet {
    /// Taking in the entered lines and routing them.
    ConsoleInput,
    /// Running the handlers of the commands. The adapters of the command
    /// types work in this set.
    Commands,
    /// Work that relies on the handlers having run, such as writing the
    /// queued lines, which then sees what was queued in the same cycle.
    PostCommands,
}

/// The sets that run in a cycle, in their order.
pub open spec fn cycle_sets(have_commands: bool) -> Seq<ConsoleSet> {
    if have_commands {
        seq![ConsoleSet::ConsoleInput, ConsoleSet::Commands, ConsoleSet::PostCommands]
    } else {
        seq![ConsoleSet::ConsoleInput, ConsoleSet::PostCommands]
    }
}

impl ConsoleSet {
    /// The set that a cycle starts with.
    pub open spec fn first() -> ConsoleSet {
        ConsoleSet::ConsoleInput
    }

    /// The set that runs after this one, if any does: `have_commands` says
    /// whether a command was entered in the cycle.
    pub open spec fn next_set(self, have_commands: bool) -> Option<ConsoleSet> {
        match self {
            ConsoleSet::ConsoleInput => if have_commands {
                Some(ConsoleSet::Commands)
            } else {
                Some(ConsoleSet::PostCommands)
            },
            ConsoleSet::Commands => Some(ConsoleSet::PostCommands),
            ConsoleSet::PostCommands => None,
        }
    }

    /// The set that runs after this one in a cycle, or `None` where the
    /// cycle is over. The commands are passed over in a cycle in which no
    /// command was entered; what comes after them runs in every cycle.
    pub fn next(self, have_commands: bool) -> (r: Option<ConsoleSet>)
        ensures
            r == self.next_set(have_commands),
    {
        match self {
            ConsoleSet::ConsoleInput => if have_commands {
                Some(ConsoleSet::Commands)
            } else {
                Some(ConsoleSet::PostCommands)
            },
            ConsoleSet::Commands => Some(ConsoleSet::PostCommands),
            ConsoleSet::PostCommands => None,
        }
    }
}

/// Going from set to set leads through the sets of the cycle and no others,
/// and ends after the last of them.
pub proof fn lemma_cycle_order(have_commands: bool)
    ensures
        cycle_sets(have_commands)[0] == ConsoleSet::first(),
        forall|i: int|
            0 <= i < cycle_sets(have_commands).len() - 1 ==> (#[trigger] cycle_sets(
                have_commands,
            )[i]).next_set(have_commands) == Some(cycle_sets(have_commands)[i + 1]),
        cycle_sets(have_commands).last().next_set(have_commands) is None,
        cycle_sets(have_commands).last() == ConsoleSet::PostCommands,
        cycle_sets(have_commands).contains(ConsoleSet::Commands) <==> have_commands,
{
}

/// A cycle in which no line was entered enters no command and queues no
/// line; the commands are passed over, what comes after them runs, and
/// nothing is written.
pub proof fn lemma_cycle_without_lines(registered: Set<Seq<char>>)
    ensures
        routed_commands(registered, Seq::empty()) == Seq::<EnteredCommand>::empty(),
        routed_lines(registered, Seq::empty()) == Seq::<Seq<char>>::empty(),
        !cycle_sets(routed_commands(registered, Seq::empty()).len() > 0).contains(
            ConsoleSet::Commands,
        ),
        cycle_sets(routed_commands(registered, Seq::empty()).len() > 0).contains(
            ConsoleSet::PostCommands,
        ),
        console_output(routed_lines(registered, Seq::empty())) == Seq::<char>::empty(),
{
    lemma_cycle_order(false);
}

/// Whether a command was entered in the cycle.
pub fn have_commands(commands: &Vec<ConsoleCommandEntered>) -> (r: bool)
    ensures
        r == (commands@.len() > 0),
{
    commands.len() > 0
}

} // verus!
