use headless_console::{
    parse_raw_commands, route_line, route_words, AddConsoleCommand, ConsoleCommandEntered,
    ConsoleCommandRawEntered, ConsoleConfiguration, NamedCommand, ParseError, PrintConsoleLine,
    Routed, TypedCommand,
};

struct Help;

impl NamedCommand for Help {
    const NAME: &'static str = "help";
}

impl TypedCommand for Help {
    fn command() -> clap::Command {
        clap::Command::new("help").about("Lists the commands")
    }

    fn from_arg_matches(_matches: &clap::ArgMatches) -> Result<Self, ParseError> {
        Ok(Help)
    }
}

fn config_with_help() -> ConsoleConfiguration {
    let mut config = ConsoleConfiguration::default();
    assert_eq!(config.add_console_command::<Help>(), None);
    config
}

fn raw(line: &str) -> ConsoleCommandRawEntered {
    ConsoleCommandRawEntered(line.to_string())
}

fn entered(name: &str, args: &[&str]) -> ConsoleCommandEntered {
    ConsoleCommandEntered {
        command_name: name.to_string(),
        args: args.iter().map(|a| a.to_string()).collect(),
    }
}

fn line(text: &str) -> PrintConsoleLine {
    PrintConsoleLine::new(text.to_string())
}

#[test]
fn empty_line_routes_nothing() {
    let config = config_with_help();
    assert_eq!(route_line(&config, ""), Routed::Nothing);
}

#[test]
fn blank_lines_route_nothing() {
    let config = config_with_help();
    assert_eq!(route_line(&config, " "), Routed::Nothing);
    assert_eq!(route_line(&config, "\t"), Routed::Nothing);
    assert_eq!(route_line(&config, " \t \n  "), Routed::Nothing);
}

#[test]
fn comment_line_routes_nothing() {
    let config = config_with_help();
    assert_eq!(route_line(&config, "# help"), Routed::Nothing);
}

#[test]
fn blank_lines_enter_and_print_nothing() {
    let config = config_with_help();
    let mut raw_lines = vec![raw(""), raw("   "), raw("\t\t")];
    let mut commands = Vec::new();
    let mut lines = Vec::new();
    parse_raw_commands(&config, &mut raw_lines, &mut commands, &mut lines);
    assert!(raw_lines.is_empty());
    assert!(commands.is_empty());
    assert!(lines.is_empty());
}

#[test]
fn registered_name_is_entered_once() {
    let config = config_with_help();
    let mut raw_lines = vec![raw("help me now")];
    let mut commands = Vec::new();
    let mut lines = Vec::new();
    parse_raw_commands(&config, &mut raw_lines, &mut commands, &mut lines);
    assert_eq!(commands, vec![entered("help", &["me", "now"])]);
    assert!(lines.is_empty());
    assert!(raw_lines.is_empty());
}

#[test]
fn unknown_name_is_reported_once() {
    let config = config_with_help();
    let mut raw_lines = vec![raw("bogus 1 2")];
    let mut commands = Vec::new();
    let mut lines = Vec::new();
    parse_raw_commands(&config, &mut raw_lines, &mut commands, &mut lines);
    assert!(commands.is_empty());
    assert_eq!(lines, vec![line("Command not recognized: bogus")]);
    assert!(lines[0].line.contains("bogus"));
}

#[test]
fn unknown_name_in_an_empty_registry() {
    let config = ConsoleConfiguration::default();
    assert_eq!(
        route_line(&config, "help"),
        Routed::NotRecognized(line("Command not recognized: help"))
    );
}

#[test]
fn route_words_takes_the_first_word_as_name() {
    let config = config_with_help();
    assert_eq!(route_words(&config, vec![]), Routed::Nothing);
    assert_eq!(
        route_words(&config, vec!["help".to_string()]),
        Routed::Entered(entered("help", &[]))
    );
    assert_eq!(
        route_words(&config, vec!["help".to_string(), "a b".to_string(), "".to_string()]),
        Routed::Entered(entered("help", &["a b", ""]))
    );
    assert_eq!(
        route_words(&config, vec!["helq".to_string(), "help".to_string()]),
        Routed::NotRecognized(line("Command not recognized: helq"))
    );
}

#[test]
fn quoted_words_keep_their_blanks() {
    let config = config_with_help();
    assert_eq!(
        route_line(&config, "help \"hello world\" 'a  b' c\\ d"),
        Routed::Entered(entered("help", &["hello world", "a  b", "c d"]))
    );
}

#[test]
fn quoted_name_is_looked_up_without_its_quotes() {
    let config = config_with_help();
    assert_eq!(route_line(&config, "'help'"), Routed::Entered(entered("help", &[])));
    assert_eq!(
        route_line(&config, "'help me'"),
        Routed::NotRecognized(line("Command not recognized: help me"))
    );
}

#[test]
fn unterminated_quote_loses_the_last_word() {
    let config = config_with_help();
    assert_eq!(route_line(&config, "help \"abc"), Routed::Entered(entered("help", &[])));
    assert_eq!(route_line(&config, "help one 'two"), Routed::Entered(entered("help", &["one"])));
    assert_eq!(route_line(&config, "\"help"), Routed::Nothing);
}

#[test]
fn lines_are_routed_in_the_order_they_were_entered() {
    let config = config_with_help();
    let mut raw_lines = vec![raw("zap"), raw("help 1"), raw(""), raw("pow x"), raw("help 2")];
    let mut commands = vec![entered("help", &["0"])];
    let mut lines = vec![line("earlier")];
    parse_raw_commands(&config, &mut raw_lines, &mut commands, &mut lines);
    assert!(raw_lines.is_empty());
    assert_eq!(
        commands,
        vec![entered("help", &["0"]), entered("help", &["1"]), entered("help", &["2"])]
    );
    assert_eq!(
        lines,
        vec![
            line("earlier"),
            line("Command not recognized: zap"),
            line("Command not recognized: pow"),
        ]
    );
}

#[test]
fn no_raw_lines_no_commands() {
    let config = config_with_help();
    let mut raw_lines = Vec::new();
    let mut commands = Vec::new();
    let mut lines = Vec::new();
    parse_raw_commands(&config, &mut raw_lines, &mut commands, &mut lines);
    assert!(commands.is_empty());
    assert!(lines.is_empty());
}

#[test]
fn a_line_is_routed_once() {
    let config = config_with_help();
    let mut raw_lines = vec![raw("help")];
    let mut commands = Vec::new();
    let mut lines = Vec::new();
    parse_raw_commands(&config, &mut raw_lines, &mut commands, &mut lines);
    parse_raw_commands(&config, &mut raw_lines, &mut commands, &mut lines);
    assert_eq!(commands, vec![entered("help", &[])]);
}

#[test]
fn entered_lines_queue_up_in_order() {
    let mut queue = vec![raw("first")];
    headless_console::enter_lines(
        &vec!["second".to_string(), "".to_string(), "second".to_string(), "third".to_string()],
        &mut queue,
    );
    headless_console::enter_lines(&Vec::new(), &mut queue);
    headless_console::enter_lines(&vec!["fourth".to_string()], &mut queue);
    assert_eq!(
        queue,
        vec![raw("first"), raw("second"), raw(""), raw("second"), raw("third"), raw("fourth")]
    );
}
