//! Routing: from entered lines to entered commands and to complaints about
//! names that no command has.

use vstd::prelude::*;
use crate::configuration::ConsoleConfiguration;
use crate::events::{
    ConsoleCommandEntered, ConsoleCommandRawEntered, EnteredCommand, PrintConsoleLine,
};
use crate::words::{is_blank_line, shell_words, split_words};

verus! {

/// What becomes of the words of one line, as a mathematical value.
pub enum Route {
    /// The line holds no word: nothing comes of it.
    Nothing,
    /// The first word names a registered command.
    Entered(EnteredCommand),
    /// The first word names no registered command: a line with this text is printed.
    NotRecognized(Seq<char>),
}

/// What becomes of the words of one line.
#[derive(Clone, Debug, PartialEq, Eq)]
pub enum Routed {
    /// The line holds no word: nothing comes of it.
    Nothing,
    /// The first word names a registered command.
    Entered(ConsoleCommandEntered),
    /// The first word names no registered command: this line is printed.
    NotRecognized(PrintConsoleLine),
}

impl View for Routed {
    type V = Route;

    open spec fn view(&self) -> Route {
        match self {
            Routed::Nothing => Route::Nothing,
            Routed::Entered(entered) => Route::Entered(entered@),
            Routed::NotRecognized(line) => Route::NotRecognized(line@),
        }
    }
}

/// The text printed for a line whose first word is `name`, where no
/// command of that name is registered.
pub open spec fn not_recognized(name: Seq<char>) -> Seq<char> {
    "Command not recognized: "@ + name
}

/// What becomes of a line with the given words, where the commands with
/// the names in `registered` are registered.
pub open spec fn route(registered: Set<Seq<char>>, words: Seq<Seq<char>>) -> Route {
    if words.len() == 0 {
        Route::Nothing
    } else if registered.contains(words[0]) {
        Route::Entered(EnteredCommand { command_name: words[0], args: words.drop_first() })
    } else {
        Route::NotRecognized(not_recognized(words[0]))
    }
}

/// The commands that a route enters: one or none.
pub open spec fn entered_of(r: Route) -> Seq<EnteredCommand> {
    match r {
        Route::Entered(entered) => seq![entered],
        _ => Seq::empty(),
    }
}

/// The lines that a route prints: one or none.
pub open spec fn printed_of(r: Route) -> Seq<Seq<char>> {
    match r {
        Route::NotRecognized(text) => seq![text],
        _ => Seq::empty(),
    }
}

/// The commands entered by a sequence of lines, in the order of the lines.
pub open spec fn routed_commands(registered: Set<Seq<char>>, lines: Seq<Seq<char>>) -> Seq<
    EnteredCommand,
>
    decreases lines.len(),
{
    if lines.len() == 0 {
        Seq::empty()
    } else {
        routed_commands(registered, lines.drop_last()) + entered_of(
            route(registered, shell_words(lines.last())),
        )
    }
}

/// The lines printed for a sequence of lines, in the order of the lines.
pub open spec fn routed_lines(registered: Set<Seq<char>>, lines: Seq<Seq<char>>) -> Seq<Seq<char>>
    decreases lines.len(),
{
    if lines.len() == 0 {
        Seq::empty()
    } else {
        routed_lines(registered, lines.drop_last()) + printed_of(
            route(registered, shell_words(lines.last())),
        )
    }
}

/// A single line enters and prints what its route says.
pub proof fn lemma_single_line(registered: Set<Seq<char>>, line: Seq<char>)
    ensures
        routed_commands(registered, seq![line]) == entered_of(
            route(registered, shell_words(line)),
        ),
        routed_lines(registered, seq![line]) == printed_of(route(registered, shell_words(line))),
{
    let lines = seq![line];
    assert(routed_commands(registered, lines.drop_last()) =~= Seq::<EnteredCommand>::empty());
    assert(routed_lines(registered, lines.drop_last()) =~= Seq::<Seq<char>>::empty());
}

/// A line without words enters no command and prints no line.
pub proof fn lemma_line_without_words(registered: Set<Seq<char>>, line: Seq<char>)
    requires
        shell_words(line).len() == 0,
    ensures
        routed_commands(registered, seq![line]) == Seq::<EnteredCommand>::empty(),
        routed_lines(registered, seq![line]) == Seq::<Seq<char>>::empty(),
{
    lemma_single_line(registered, line);
}

/// A line whose first word is a registered name enters exactly one
/// command, with that name and the other words as arguments, and prints
/// no line.
pub proof fn lemma_registered_name(registered: Set<Seq<char>>, line: Seq<char>)
    requires
        shell_words(line).len() > 0,
        registered.contains(shell_words(line)[0]),
    ensures
        routed_commands(registered, seq![line]) == seq![
            EnteredCommand {
                command_name: shell_words(line)[0],
                args: shell_words(line).drop_first(),
            },
        ],
        routed_lines(registered, seq![line]) == Seq::<Seq<char>>::empty(),
{
    lemma_single_line(registered, line);
}

/// A line whose first word is no registered name enters no command and
/// prints exactly one line, which ends with that word.
pub proof fn lemma_unknown_name(registered: Set<Seq<char>>, line: Seq<char>)
    requires
        shell_words(line).len() > 0,
        !registered.contains(shell_words(line)[0]),
    ensures
        routed_commands(registered, seq![line]) == Seq::<EnteredCommand>::empty(),
        routed_lines(registered, seq![line]) == seq![not_recognized(shell_words(line)[0])],
        ({
            let name = shell_words(line)[0];
            let text = not_recognized(name);
            text.subrange(text.len() - name.len(), text.len() as int) == name
        }),
{
    lemma_single_line(registered, line);
}

/// No line both enters a command and prints a line, and none does either
/// more than once.
pub proof fn lemma_one_outcome(registered: Set<Seq<char>>, line: Seq<char>)
    ensures
        routed_commands(registered, seq![line]).len() + routed_lines(registered, seq![line]).len()
            <= 1,
{
    lemma_single_line(registered, line);
}

/// Every entered command has a name that was registered when its line was routed.
pub proof fn lemma_entered_names_registered(registered: Set<Seq<char>>, lines: Seq<Seq<char>>)
    ensures
        forall|i: int|
            0 <= i < routed_commands(registered, lines).len() ==> registered.contains(
                (#[trigger] routed_commands(registered, lines)[i]).command_name,
            ),
    decreases lines.len(),
{
    if lines.len() > 0 {
        lemma_entered_names_registered(registered, lines.drop_last());
        let before = routed_commands(registered, lines.drop_last());
        let all = routed_commands(registered, lines);
        assert forall|i: int| 0 <= i < all.len() implies registered.contains(
            (#[trigger] all[i]).command_name,
        ) by {
            if i < before.len() {
                assert(all[i] == before[i]);
            }
        }
    }
}

/// Lines that come later add to what the lines before them entered and printed.
pub proof fn lemma_lines_in_order(
    registered: Set<Seq<char>>,
    earlier: Seq<Seq<char>>,
    later: Seq<Seq<char>>,
)
    ensures
        routed_commands(registered, earlier + later) == routed_commands(registered, earlier)
            + routed_commands(registered, later),
        routed_lines(registered, earlier + later) == routed_lines(registered, earlier)
            + routed_lines(registered, later),
    decreases later.len(),
{
    if later.len() > 0 {
        assert((earlier + later).drop_last() =~= earlier + later.drop_last());
        lemma_lines_in_order(registered, earlier, later.drop_last());
    }
}

/// Adds lines to the queue of entered lines, behind those that wait there
/// and in the order given: none is dropped, joined with another or moved.
pub fn enter_lines(lines: &Vec<String>, raw_commands_entered: &mut Vec<ConsoleCommandRawEntered>)
    ensures
        final(raw_commands_entered).deep_view() == old(raw_commands_entered).deep_view()
            + lines.deep_view(),
{
    let ghost before = raw_commands_entered.deep_view();
    let ghost added = lines.deep_view();
    let mut i: usize = 0;
    while i < lines.len()
        invariant
            i <= lines@.len(),
            added == lines.deep_view(),
            raw_commands_entered.deep_view() == before + added.take(i as int),
        decreases lines@.len() - i,
    {
        let ghost queued = raw_commands_entered.deep_view();
        let line = lines[i].clone();
        raw_commands_entered.push(ConsoleCommandRawEntered(line));
        assert(raw_commands_entered.deep_view() =~= queued.push(added[i as int]));
        i += 1;
    }
}

/// Routes a line that has been split into `words`.
pub fn route_words(config: &ConsoleConfiguration, words: Vec<String>) -> (r: Routed)
    ensures
        r@ == route(config.commands@.dom(), words.deep_view()),
{
    let mut args = words;
    if args.len() == 0 {
        return Routed::Nothing;
    }
    let command_name = args.remove(0);
    assert(args.deep_view() =~= words.deep_view().drop_first());
    if config.commands.contains_key(command_name.as_str()) {
        Routed::Entered(ConsoleCommandEntered { command_name, args })
    } else {
        let mut line = "Command not recognized: ".to_owned();
        line.append(command_name.as_str());
        Routed::NotRecognized(PrintConsoleLine::new(line))
    }
}

/// Splits a line into words and routes it by the first of them.
pub fn route_line(config: &ConsoleConfiguration, line: &str) -> (r: Routed)
    ensures
        r@ == route(config.commands@.dom(), shell_words(line@)),
        is_blank_line(line@) ==> shell_words(line@).len() == 0,
{
    route_words(config, split_words(line))
}

/// Routes the lines entered since the last call, in the order in which
/// they were entered, and leaves none of them behind: each is routed once.
/// The entered commands are added to `command_entered`, the complaints
/// about unknown names to `output_console_lines`. A line of nothing but
/// blanks has no words, so that nothing comes of it.
pub fn parse_raw_commands(
    config: &ConsoleConfiguration,
    raw_commands_entered: &mut Vec<ConsoleCommandRawEntered>,
    command_entered: &mut Vec<ConsoleCommandEntered>,
    output_console_lines: &mut Vec<PrintConsoleLine>,
)
    ensures
        final(raw_commands_entered)@.len() == 0,
        final(command_entered).deep_view() == old(command_entered).deep_view() + routed_commands(
            config.commands@.dom(),
            old(raw_commands_entered).deep_view(),
        ),
        final(output_console_lines).deep_view() == old(output_console_lines).deep_view()
            + routed_lines(config.commands@.dom(), old(raw_commands_entered).deep_view()),
        forall|k: int|
            0 <= k < old(raw_commands_entered).deep_view().len() && is_blank_line(
                #[trigger] old(raw_commands_entered).deep_view()[k],
            ) ==> shell_words(old(raw_commands_entered).deep_view()[k]).len() == 0,
{
    let ghost registered = config.commands@.dom();
    let ghost raw = raw_commands_entered.deep_view();
    let ghost entered_before = command_entered.deep_view();
    let ghost lines_before = output_console_lines.deep_view();
    let mut i: usize = 0;
    while i < raw_commands_entered.len()
        invariant
            i <= raw_commands_entered@.len(),
            registered == config.commands@.dom(),
            raw == raw_commands_entered.deep_view(),
            command_entered.deep_view() == entered_before + routed_commands(
                registered,
                raw.take(i as int),
            ),
            output_console_lines.deep_view() == lines_before + routed_lines(
                registered,
                raw.take(i as int),
            ),
            forall|k: int|
                0 <= k < i && is_blank_line(#[trigger] raw[k]) ==> shell_words(raw[k]).len() == 0,
        decreases raw_commands_entered@.len() - i,
    {
        let ghost entered_so_far = command_entered.deep_view();
        let ghost lines_so_far = output_console_lines.deep_view();
        let routed = route_line(config, raw_commands_entered[i].0.as_str());
        proof {
            let upto = raw.take(i as int + 1);
            assert(upto.drop_last() =~= raw.take(i as int));
        }
        match routed {
            Routed::Nothing => {},
            Routed::Entered(entered) => {
                command_entered.push(entered);
                assert(command_entered.deep_view() =~= entered_so_far.push(entered@));
            },
            Routed::NotRecognized(line) => {
                output_console_lines.push(line);
                assert(output_console_lines.deep_view() =~= lines_so_far.push(line@));
            },
        }
        i += 1;
    }
    assert(raw.take(i as int) =~= raw);
    raw_commands_entered.clear();
}

} // verus!
