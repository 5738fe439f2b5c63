use headless_console::{caret, have_commands, output_console_lines, ConsoleCommandEntered, ConsoleSet, PrintConsoleLine};

fn line(text: &str) -> PrintConsoleLine {
    PrintConsoleLine::new(text.to_string())
}

#[test]
fn the_caret() {
    assert_eq!(caret(), "> ");
}

#[test]
fn new_line_holds_its_text() {
    assert_eq!(PrintConsoleLine::new("[ok]".to_string()).line, "[ok]");
}

#[test]
fn no_lines_no_text() {
    let mut lines = Vec::new();
    assert_eq!(output_console_lines(&mut lines), "");
}

#[test]
fn lines_then_caret() {
    let mut lines = vec![line("one"), line(""), line("three 3")];
    assert_eq!(output_console_lines(&mut lines), "one\n\nthree 3\n> ");
    assert!(lines.is_empty());
    assert_eq!(output_console_lines(&mut lines), "");
}

#[test]
fn one_line_then_caret() {
    let mut lines = vec![line("[ok]")];
    assert_eq!(output_console_lines(&mut lines), "[ok]\n> ");
}

#[test]
fn sets_follow_each_other() {
    assert_eq!(ConsoleSet::ConsoleInput.next(true), Some(ConsoleSet::Commands));
    assert_eq!(ConsoleSet::ConsoleInput.next(false), Some(ConsoleSet::PostCommands));
    assert_eq!(ConsoleSet::Commands.next(true), Some(ConsoleSet::PostCommands));
    assert_eq!(ConsoleSet::Commands.next(false), Some(ConsoleSet::PostCommands));
    assert_eq!(ConsoleSet::PostCommands.next(true), None);
    assert_eq!(ConsoleSet::PostCommands.next(false), None);
}

#[test]
fn have_commands_when_one_was_entered() {
    assert!(!have_commands(&Vec::new()));
    let entered = ConsoleCommandEntered { command_name: "help".to_string(), args: Vec::new() };
    assert!(have_commands(&vec![entered]));
}
