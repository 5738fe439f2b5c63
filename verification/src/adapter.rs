//! The adapter between the entered commands of a cycle and the handler of
//! one command type.

use vstd::prelude::*;
use crate::events::{ConsoleCommandEntered, EnteredCommand, PrintConsoleLine};
use crate::router::{lemma_registered_name, routed_commands};
use crate::schema::{
    accepted, no_binary_name, parse_of, try_get_matches_from, without_binary_name, ParseError,
    ParseFailure,
};
use crate::words::shell_words;

verus! {

/// Gives a command type the name by which it is entered.
pub trait NamedCommand {
    /// The name of the command: the first word of a line that enters it.
    const NAME: &'static str;

    /// The name of the command, as a value.
    fn name() -> (r: &'static str)
        ensures
            r@ == Self::NAME@,
    {
        Self::NAME
    }
}

/// A command type: a name, the description of its arguments, and the way
/// from parsed arguments to a value of the type.
pub trait TypedCommand: NamedCommand + Sized {
    /// The description of the command's arguments and help texts.
    ///
    /// It has to be one in which `clap` finds no contradiction when it
    /// parses with it without a program name: built with debug assertions,
    /// `clap` panics on any other. That is all the contract asks. Code
    /// that the description brings along, such as a parser for the values
    /// of an argument, runs inside the parse; where it panics or reads
    /// what lies outside its arguments, nothing here keeps it from that.
    fn command() -> (r: clap::Command)
        ensures
            accepted(r),
    ;

    /// Builds a value of the type from the arguments that a parse found.
    /// An error is a parse error like one of `clap`: it is handed to the
    /// handler, and its message is queued for printing.
    fn from_arg_matches(matches: &clap::ArgMatches) -> Result<Self, ParseError>;
}

/// Whether some entered command has the given name.
pub open spec fn has_match(commands: Seq<EnteredCommand>, name: Seq<char>) -> bool {
    exists|i: int| 0 <= i < commands.len() && (#[trigger] commands[i]).command_name == name
}

/// Whether `i` is the position of the first entered command of the given name.
pub open spec fn is_first_match(commands: Seq<EnteredCommand>, name: Seq<char>, i: int) -> bool {
    &&& 0 <= i < commands.len()
    &&& commands[i].command_name == name
    &&& forall|j: int| 0 <= j < i ==> (#[trigger] commands[j]).command_name != name
}

/// Finds the first entered command of the given name.
pub fn find_command(name: &str, commands: &Vec<ConsoleCommandEntered>) -> (r: Option<usize>)
    ensures
        match r {
            Some(i) => is_first_match(commands.deep_view(), name@, i as int),
            None => !has_match(commands.deep_view(), name@),
        },
{
    let wanted = name.to_owned();
    let mut i: usize = 0;
    while i < commands.len()
        invariant
            i <= commands.len(),
            wanted@ == name@,
            forall|j: int| 0 <= j < i ==> (#[trigger] commands.deep_view()[j]).command_name != name@,
        decreases commands.len() - i,
    {
        if commands[i].command_name == wanted {
            return Some(i);
        }
        i += 1;
    }
    None
}

/// The arguments of the first entered command of the given name, if there
/// is one.
pub open spec fn first_arguments_of(commands: Seq<EnteredCommand>, name: Seq<char>) -> Option<
    Seq<Seq<char>>,
> {
    if has_match(commands, name) {
        Some(commands[choose|i: int| is_first_match(commands, name, i)].args)
    } else {
        None
    }
}

/// Only one position is that of the first entered command of a name.
pub proof fn lemma_first_match_is_one(
    commands: Seq<EnteredCommand>,
    name: Seq<char>,
    i: int,
    j: int,
)
    requires
        is_first_match(commands, name, i),
        is_first_match(commands, name, j),
    ensures
        i == j,
{
    if i < j {
        assert(commands[i].command_name != name);
    } else if j < i {
        assert(commands[j].command_name != name);
    }
}

/// Finds the arguments of the first entered command of the given name.
pub fn first_arguments<'a>(name: &str, commands: &'a Vec<ConsoleCommandEntered>) -> (r: Option<
    &'a Vec<String>,
>)
    ensures
        match r {
            Some(args) => first_arguments_of(commands.deep_view(), name@) == Some(
                args.deep_view(),
            ),
            None => first_arguments_of(commands.deep_view(), name@) is None,
        },
{
    match find_command(name, commands) {
        Some(i) => {
            proof {
                let entered = commands.deep_view();
                let chosen = choose|k: int| is_first_match(entered, name@, k);
                lemma_first_match_is_one(entered, name@, i as int, chosen);
            }
            Some(&commands[i].args)
        },
        None => None,
    }
}

/// The queue that an adapter starts its cycle with, where `before` was
/// queued and `pending` is its pending result: an error adds one line, its
/// message; a value adds none, and neither does a cycle without a command.
pub open spec fn queued_with<T>(
    before: Seq<Seq<char>>,
    pending: Option<Result<T, ParseError>>,
) -> Seq<Seq<char>> {
    match pending {
        Some(Err(error)) => before.push(error.rendered@),
        _ => before,
    }
}

/// What taking does to a pending result: the first part is handed out, the
/// second is left behind.
pub open spec fn taken<T>(pending: Option<Result<T, ParseError>>) -> (
    Option<Result<T, ParseError>>,
    Option<Result<T, ParseError>>,
) {
    (pending, None)
}

/// Taking hands out what was pending, and taking again hands out nothing.
pub proof fn lemma_take_once<T>(pending: Option<Result<T, ParseError>>)
    ensures
        taken(pending).0 == pending,
        taken(taken(pending).1).0 is None,
{
}

/// The command that a line with a registered first word enters is found
/// under that word by the adapters, as the first of the line's commands.
pub proof fn lemma_entered_command_is_matched(registered: Set<Seq<char>>, line: Seq<char>)
    requires
        shell_words(line).len() > 0,
        registered.contains(shell_words(line)[0]),
    ensures
        has_match(routed_commands(registered, seq![line]), shell_words(line)[0]),
        is_first_match(routed_commands(registered, seq![line]), shell_words(line)[0], 0),
{
    lemma_registered_name(registered, line);
    let commands = routed_commands(registered, seq![line]);
    assert(commands[0].command_name == shell_words(line)[0]);
}

/// Where no command was entered, no name has a match.
pub proof fn lemma_no_commands_no_match(name: Seq<char>)
    ensures
        !has_match(Seq::<EnteredCommand>::empty(), name),
{
}

/// The pending result of one command type in a cycle, together with the
/// queue of lines to print, which the handler may add to.
///
/// The result is pending until the handler takes it, and can be taken once.
pub struct ConsoleCommand<T> {
    name: &'static str,
    command: Option<Result<T, ParseError>>,
    console_line: Vec<PrintConsoleLine>,
}

impl<T> ConsoleCommand<T> {
    /// The name of the command that this adapter is bound to.
    pub closed spec fn name(&self) -> Seq<char> {
        self.name@
    }

    /// The result that waits for the handler, if any.
    pub closed spec fn pending(&self) -> Option<Result<T, ParseError>> {
        self.command
    }

    /// The texts of the queued lines, oldest first.
    pub closed spec fn lines(&self) -> Seq<Seq<char>> {
        self.console_line.deep_view()
    }

    /// An adapter for a cycle in which its command was not entered.
    pub fn idle(name: &'static str, console_line: Vec<PrintConsoleLine>) -> (r: Self)
        ensures
            r.name() == name@,
            r.pending() is None,
            r.lines() == console_line.deep_view(),
    {
        ConsoleCommand { name, command: None, console_line }
    }

    /// An adapter for a cycle in which its command was entered, given what
    /// parsing its arguments into a value of the type gave. A value is
    /// owed to the handler, and nothing is queued. An error is owed to the
    /// handler too, and its message is queued for printing at once, before
    /// any handler runs and whether or not the handler takes the error.
    pub fn settle(
        name: &'static str,
        result: Result<T, ParseError>,
        console_line: Vec<PrintConsoleLine>,
    ) -> (r: Self)
        ensures
            r.name() == name@,
            r.pending() == Some(result),
            r.lines() == queued_with(console_line.deep_view(), Some(result)),
    {
        match result {
            Ok(value) => ConsoleCommand { name, command: Some(Ok(value)), console_line },
            Err(error) => {
                let mut console_line = console_line;
                console_line.push(PrintConsoleLine::new(error.rendered.clone()));
                ConsoleCommand { name, command: Some(Err(error)), console_line }
            },
        }
    }

    /// Hands out the pending result and leaves none behind: a second call in
    /// the same cycle returns `None`, whether or not the command was entered.
    pub fn take(&mut self) -> (r: Option<Result<T, ParseError>>)
        ensures
            (r, final(self).pending()) == taken(old(self).pending()),
            final(self).name() == old(self).name(),
            final(self).lines() == old(self).lines(),
    {
        self.command.take()
    }

    /// Queues the line `[ok]`.
    pub fn ok(&mut self)
        ensures
            final(self).lines() == old(self).lines().push("[ok]"@),
            final(self).pending() == old(self).pending(),
            final(self).name() == old(self).name(),
    {
        self.reply("[ok]");
    }

    /// Queues the line `[failed]`.
    pub fn failed(&mut self)
        ensures
            final(self).lines() == old(self).lines().push("[failed]"@),
            final(self).pending() == old(self).pending(),
            final(self).name() == old(self).name(),
    {
        self.reply("[failed]");
    }

    /// Queues a line with the text `msg`.
    pub fn reply(&mut self, msg: &str)
        ensures
            final(self).lines() == old(self).lines().push(msg@),
            final(self).pending() == old(self).pending(),
            final(self).name() == old(self).name(),
    {
        self.console_line.push(PrintConsoleLine::new(msg.to_owned()));
    }

    /// Queues one line that holds `msg` and the mark of success:
    /// `msg`, a space, and `[ok]`.
    pub fn reply_ok(&mut self, msg: &str)
        ensures
            final(self).lines() == old(self).lines().push(msg@ + " [ok]"@),
            final(self).pending() == old(self).pending(),
            final(self).name() == old(self).name(),
    {
        let mut line = msg.to_owned();
        line.append(" [ok]");
        self.reply(line.as_str());
    }

    /// Queues one line that holds `msg` and the mark of failure:
    /// `msg`, a space, and `[failed]`.
    pub fn reply_failed(&mut self, msg: &str)
        ensures
            final(self).lines() == old(self).lines().push(msg@ + " [failed]"@),
            final(self).pending() == old(self).pending(),
            final(self).name() == old(self).name(),
    {
        let mut line = msg.to_owned();
        line.append(" [failed]");
        self.reply(line.as_str());
    }

    /// Hands out the lines queued so far, oldest first, and leaves the
    /// queue empty: for a caller that passes lines on as they come.
    pub fn drain_lines(&mut self) -> (console_line: Vec<PrintConsoleLine>)
        ensures
            console_line.deep_view() == old(self).lines(),
            final(self).lines() == Seq::<Seq<char>>::empty(),
            final(self).pending() == old(self).pending(),
            final(self).name() == old(self).name(),
    {
        let mut console_line: Vec<PrintConsoleLine> = Vec::new();
        core::mem::swap(&mut self.console_line, &mut console_line);
        console_line
    }

    /// Ends the adapter's cycle and gives the queue of lines back, with what
    /// was added to it.
    pub fn into_lines(self) -> (console_line: Vec<PrintConsoleLine>)
        ensures
            console_line.deep_view() == self.lines(),
    {
        self.console_line
    }
}

impl<T: TypedCommand> ConsoleCommand<T> {
    /// Whether the pending result is what a parse with the given outcome
    /// leaves for the command type `T`: where `clap` found the arguments,
    /// something that `T` builds from what it found; where it refused
    /// them, the error of the parse.
    pub open spec fn holds(&self, outcome: Result<clap::ArgMatches, ParseFailure>) -> bool {
        match outcome {
            Ok(found) => {
                &&& self.pending() matches Some(built)
                &&& call_ensures(T::from_arg_matches, (&found,), built)
            },
            Err(failure) => {
                &&& self.pending() matches Some(Err(error))
                &&& error@ == failure
            },
        }
    }

    /// Whether the pending result is what parsing `args` leaves for the
    /// command type `T`, where `described` is a description that `T`
    /// gives: the parse is that of `args` against `described` taken
    /// without a program name.
    pub open spec fn answers(&self, described: clap::Command, args: Seq<Seq<char>>) -> bool {
        &&& call_ensures(T::command, (), described)
        &&& self.holds(parse_of(no_binary_name(described), args))
    }

    /// Prepares the adapter of command type `T` for a cycle.
    ///
    /// `commands` holds the commands entered in this cycle, `console_line`
    /// the lines queued so far. The adapter is bound to the name of `T`.
    /// The arguments of the first entered command of that name are parsed
    /// against the description of `T`, taken without a program name; later
    /// commands of the name are left alone. With no such command nothing
    /// is pending. Arguments that `clap` accepts make what `T` builds from
    /// them pending; arguments that it refuses make the error pending.
    /// Where an error is pending, of `clap` or of `T`, its message is
    /// queued, before any handler runs; nothing else is queued.
    pub fn get_param(commands: &Vec<ConsoleCommandEntered>, console_line: Vec<PrintConsoleLine>) -> (r: Self)
        ensures
            r.name() == T::NAME@,
            r.lines() == queued_with(console_line.deep_view(), r.pending()),
            match first_arguments_of(commands.deep_view(), T::NAME@) {
                None => r.pending() is None,
                Some(args) => exists|described: clap::Command| #[trigger] r.answers(described, args),
            },
    {
        let name = T::name();
        match first_arguments(name, commands) {
            None => ConsoleCommand::idle(name, console_line),
            Some(args) => {
                let described = T::command();
                let result = match try_get_matches_from(without_binary_name(described), args) {
                    Ok(found) => T::from_arg_matches(&found),
                    Err(error) => Err(error),
                };
                let r = ConsoleCommand::settle(name, result, console_line);
                assert(first_arguments_of(commands.deep_view(), T::NAME@)->0 == args.deep_view());
                assert(r.answers(described, args.deep_view()));
                r
            },
        }
    }
}

} // verus!
