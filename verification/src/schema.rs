//! What the console takes from `clap`: the description of a command's
//! arguments, a parse of a list of arguments against it, and the error of a
//! parse that failed.

use vstd::prelude::*;

verus! {

/// `clap::Command`: the description of a command, of its arguments and of
/// its help texts. The console stores and hands on such a value and never
/// looks inside it.
#[verifier::external_type_specification]
#[verifier::external_body]
pub struct ExCommand(clap::Command);

/// `clap` derives `Clone` for `clap::Command`: a clone is made field by
/// field, and stands for the same description as the value it was made of.
pub assume_specification[ <clap::Command as Clone>::clone ](cmd: &clap::Command) -> (r:
    clap::Command)
    ensures
        r == *cmd,
;

/// `clap::ArgMatches`: the arguments that a parse found.
#[verifier::external_type_specification]
#[verifier::external_body]
pub struct ExArgMatches(clap::ArgMatches);

/// `clap::error::ErrorKind`: the reason why a parse failed.
#[verifier::external_type_specification]
#[verifier::external_body]
pub struct ExErrorKind(clap::error::ErrorKind);

/// Why a list of arguments was not accepted for a command.
#[derive(Debug, PartialEq, Eq)]
pub struct ParseError {
    /// The reason, as `clap` classifies it.
    pub kind: clap::error::ErrorKind,
    /// The message for the user, as plain text without styling.
    pub rendered: String,
}

/// The mathematical content of a [`ParseError`].
pub struct ParseFailure {
    pub kind: clap::error::ErrorKind,
    pub rendered: Seq<char>,
}

impl View for ParseError {
    type V = ParseFailure;

    open spec fn view(&self) -> ParseFailure {
        ParseFailure { kind: self.kind, rendered: self.rendered@ }
    }
}

/// Whether `clap` finds no contradiction in a description that is parsed
/// without a program name: whether the checks that `clap` makes of a
/// description and of its subcommands when it parses with them (its
/// `debug_asserts`) pass for `cmd` taken with the setting that
/// [`takes_no_binary_name`] speaks of.
pub uninterp spec fn accepted(cmd: clap::Command) -> bool;

/// Whether the description says that an argument list does not start with
/// the name of a program: `clap::Command::is_no_binary_name_set`.
pub uninterp spec fn takes_no_binary_name(cmd: clap::Command) -> bool;

/// What `clap::Command::try_get_matches_from` gives for a description and a
/// list of arguments: the arguments found, or the kind and the rendered
/// message of the error.
pub uninterp spec fn parse_of(cmd: clap::Command, args: Seq<Seq<char>>) -> Result<
    clap::ArgMatches,
    ParseFailure,
>;

/// The description that `clap::Command::no_binary_name` makes of `cmd` when
/// it is called with `true`: `cmd` with the setting that an argument list
/// does not start with the name of a program.
pub uninterp spec fn no_binary_name(cmd: clap::Command) -> clap::Command;

/// Tells `clap` that a command's argument list does not start with the name
/// of a program.
///
/// Trusted: calls `clap::Command::no_binary_name` with `true`, which sets
/// the setting for the description and its subcommands and changes
/// nothing else. The result is named. The setting is set in it; and since
/// [`accepted`] speaks of a description as it is with the setting, what
/// comes back is accepted where what went in was.
#[verifier::external_body]
pub(crate) fn without_binary_name(cmd: clap::Command) -> (r: clap::Command)
    ensures
        r == no_binary_name(cmd),
        takes_no_binary_name(r),
        accepted(cmd) ==> accepted(r),
{
    cmd.no_binary_name(true)
}

/// Parses `args` against `cmd`.
///
/// Trusted: calls `clap::Command::try_get_matches_from` and, where it
/// fails, keeps of the `clap::Error` its kind and its rendered message as
/// plain text. Built with debug assertions, `clap` panics here on a
/// description in which it finds a contradiction: `requires` leaves those
/// out. The result is named: as this crate builds `clap`, which then reads
/// no variable of the process and does not wrap to the width of a
/// terminal, it depends on the description and the arguments alone, as
/// long as the code that the description brings along, such as a parser
/// for the values of an argument, does so too. Which arguments are
/// accepted is for `cmd` to say.
#[verifier::external_body]
pub(crate) fn try_get_matches_from(cmd: clap::Command, args: &Vec<String>) -> (r: Result<
    clap::ArgMatches,
    ParseError,
>)
    requires
        accepted(cmd),
        takes_no_binary_name(cmd),
    ensures
        match r {
            Ok(matches) => parse_of(cmd, args.deep_view()) == Ok::<clap::ArgMatches, ParseFailure>(
                matches,
            ),
            Err(error) => parse_of(cmd, args.deep_view()) == Err::<clap::ArgMatches, ParseFailure>(
                error@,
            ),
        },
{
    match cmd.try_get_matches_from(args.iter()) {
        Ok(matches) => Ok(matches),
        Err(err) => Err(ParseError { kind: err.kind(), rendered: err.render().to_string() }),
    }
}

} // verus!
