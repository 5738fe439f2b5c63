//! The three kinds of message that move through the console in a cycle.

use vstd::prelude::*;

verus! {

/// A line of text as it was entered, not yet split into words.
#[derive(Clone, Debug, PartialEq, Eq)]
pub struct ConsoleCommandRawEntered(pub String);

impl View for ConsoleCommandRawEntered {
    type V = Seq<char>;

    open spec fn view(&self) -> Seq<char> {
        self.0@
    }
}

impl DeepView for ConsoleCommandRawEntered {
    type V = Seq<char>;

    open spec fn deep_view(&self) -> Seq<char> {
        self.0@
    }
}

/// The mathematical content of a [`ConsoleCommandEntered`]: the name of the
/// command and its arguments in order, each as a sequence of characters.
pub struct EnteredCommand {
    pub command_name: Seq<char>,
    pub args: Seq<Seq<char>>,
}

/// An entered line whose first word names a registered command.
#[derive(Clone, Debug, PartialEq, Eq)]
pub struct ConsoleCommandEntered {
    /// The first word of the line.
    pub command_name: String,
    /// The words after the first, in the order they were entered.
    pub args: Vec<String>,
}

impl View for ConsoleCommandEntered {
    type V = EnteredCommand;

    open spec fn view(&self) -> EnteredCommand {
        EnteredCommand { command_name: self.command_name@, args: self.args.deep_view() }
    }
}

impl DeepView for ConsoleCommandEntered {
    type V = EnteredCommand;

    open spec fn deep_view(&self) -> EnteredCommand {
        self@
    }
}

/// A line to print to the console.
#[derive(Clone, Debug, PartialEq, Eq)]
pub struct PrintConsoleLine {
    /// The text of the line, without a line terminator.
    pub line: String,
}

impl View for PrintConsoleLine {
    type V = Seq<char>;

    open spec fn view(&self) -> Seq<char> {
        self.line@
    }
}

impl DeepView for PrintConsoleLine {
    type V = Seq<char>;

    open spec fn deep_view(&self) -> Seq<char> {
        self.line@
    }
}

impl PrintConsoleLine {
    /// Creates a console line with the given text.
    pub fn new(line: String) -> (r: Self)
        ensures
            r@ == line@,
    {
        PrintConsoleLine { line }
    }
}

} // verus!
