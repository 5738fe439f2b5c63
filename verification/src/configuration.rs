//! The configuration of a console, and the registration of commands in it.

use vstd::prelude::*;
use crate::adapter::TypedCommand;
use crate::registry::CommandRegistry;
use crate::schema::{no_binary_name, without_binary_name};

verus! {

/// The configuration of a console.
#[derive(Clone)]
pub struct ConsoleConfiguration {
    /// The registered commands.
    pub commands: CommandRegistry,
    /// The number of entered lines to keep as history.
    pub history_size: usize,
}

impl Default for ConsoleConfiguration {
    /// A configuration without commands that keeps twenty lines of history.
    fn default() -> (r: Self)
        ensures
            r.commands@ == Map::<Seq<char>, clap::Command>::empty(),
            r.commands.names() == Seq::<Seq<char>>::empty(),
            r.history_size == 20,
    {
        ConsoleConfiguration { commands: CommandRegistry::new(), history_size: 20 }
    }
}

/// The text of the diagnostic for a registration under a name that was
/// taken already.
pub open spec fn overwritten_warning(name: Seq<char>) -> Seq<char> {
    "warning: console command '"@ + name + "' already registered and was overwritten"@
}

/// The diagnostic that a registration under `name` owes, given the commands
/// registered before it: a warning where the name was taken, else none.
pub open spec fn diagnostic_of(before: Map<Seq<char>, clap::Command>, name: Seq<char>) -> Option<
    Seq<char>,
> {
    if before.dom().contains(name) {
        Some(overwritten_warning(name))
    } else {
        None
    }
}

/// Registering twice under one name leaves the second description, and the
/// second registration owes a diagnostic; the first owes none where the
/// name was free.
pub proof fn lemma_registering_twice(
    before: Map<Seq<char>, clap::Command>,
    name: Seq<char>,
    first: clap::Command,
    second: clap::Command,
)
    ensures
        before.insert(name, first).insert(name, second) == before.insert(name, second),
        before.insert(name, first).insert(name, second)[name] == second,
        diagnostic_of(before.insert(name, first), name) == Some(overwritten_warning(name)),
        !before.dom().contains(name) ==> diagnostic_of(before, name) is None,
{
}

impl ConsoleConfiguration {
    /// Registers `command` under `name`, in place of what was registered
    /// under that name before. Where there was something, the text of a
    /// warning is returned, for the caller to report apart from the
    /// console's own output.
    pub fn register(&mut self, name: &str, command: clap::Command) -> (diagnostic: Option<String>)
        ensures
            final(self).commands@ == old(self).commands@.insert(name@, command),
            final(self).history_size == old(self).history_size,
            match diagnostic {
                Some(text) => diagnostic_of(old(self).commands@, name@) == Some(text@),
                None => diagnostic_of(old(self).commands@, name@) is None,
            },
    {
        match self.commands.insert(name, command) {
            Some(_) => {
                let mut text = "warning: console command '".to_owned();
                text.append(name);
                text.append("' already registered and was overwritten");
                Some(text)
            },
            None => None,
        }
    }
}

/// Adds commands to a console by their type.
pub trait AddConsoleCommand {
    /// Registers the command type `T` under its name, so that lines that
    /// start with the name are routed to it and the command is listed with
    /// the others. Returns the text of a warning where the name was taken.
    fn add_console_command<T: TypedCommand>(&mut self) -> Option<String>;
}

impl AddConsoleCommand for ConsoleConfiguration {
    /// The command is registered under the name of `T`, with a description
    /// that `T` gives, taken without a program name.
    fn add_console_command<T: TypedCommand>(&mut self) -> (diagnostic: Option<String>)
        ensures
            final(self).history_size == old(self).history_size,
            exists|described: clap::Command|
                call_ensures(T::command, (), described) && final(self).commands@ == old(
                    self,
                ).commands@.insert(T::NAME@, #[trigger] no_binary_name(described)),
            match diagnostic {
                Some(text) => diagnostic_of(old(self).commands@, T::NAME@) == Some(text@),
                None => diagnostic_of(old(self).commands@, T::NAME@) is None,
            },
    {
        let described = T::command();
        let diagnostic = self.register(T::name(), without_binary_name(described));
        assert(self.commands@ == old(self).commands@.insert(
            T::NAME@,
            no_binary_name(described),
        ));
        diagnostic
    }
}

} // verus!
