//! A line-oriented command console.
//!
//! Lines of text are split into words, routed by their first word against a
//! registry of named commands, parsed into typed arguments and handed to the
//! command's handler; what the handlers and the router print is collected and
//! rendered after them. One pass through these stages is a cycle.

pub mod adapter;
pub mod configuration;
pub mod events;
pub mod order;
pub mod output;
pub mod reader;
pub mod registry;
pub mod router;
pub mod schedule;
pub mod schema;
pub mod words;

pub use crate::adapter::{
    find_command, first_arguments, ConsoleCommand, NamedCommand, TypedCommand,
};
pub use crate::configuration::{AddConsoleCommand, ConsoleConfiguration};
pub use crate::events::{
    ConsoleCommandEntered, ConsoleCommandRawEntered, EnteredCommand, PrintConsoleLine,
};
pub use crate::order::{compare_names, NameOrder};
pub use crate::output::{caret, output_console_lines};
pub use crate::reader::{reader_step, ReaderStep};
pub use crate::registry::CommandRegistry;
pub use crate::router::{
    enter_lines, parse_raw_commands, route_line, route_words, Route, Routed,
};
pub use crate::schedule::{have_commands, ConsoleSet};
pub use crate::schema::ParseError;
