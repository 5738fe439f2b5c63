use headless_console::{
    compare_names, AddConsoleCommand, CommandRegistry, ConsoleConfiguration, NameOrder,
    NamedCommand, ParseError, TypedCommand,
};

fn described(about: &'static str) -> clap::Command {
    clap::Command::new("c").about(about)
}

fn about(command: &clap::Command) -> String {
    command.get_about().map(|text| text.to_string()).unwrap_or_default()
}

fn names(registry: &CommandRegistry) -> Vec<String> {
    let mut names = Vec::new();
    let mut i = 0;
    while let Some((name, _)) = registry.entry(i) {
        names.push(name.to_string());
        i += 1;
    }
    names
}

#[test]
fn default_configuration() {
    let config = ConsoleConfiguration::default();
    assert_eq!(config.history_size, 20);
    assert_eq!(config.commands.len(), 0);
    assert!(config.commands.entry(0).is_none());
    assert!(!config.commands.contains_key("help"));
    assert!(config.commands.get("help").is_none());
}

#[test]
fn register_then_get() {
    let mut config = ConsoleConfiguration::default();
    assert_eq!(config.register("log", described("writes")), None);
    assert!(config.commands.contains_key("log"));
    assert!(!config.commands.contains_key("lo"));
    assert!(!config.commands.contains_key("logs"));
    assert_eq!(about(config.commands.get("log").unwrap()), "writes");
    assert_eq!(config.commands.len(), 1);
    assert_eq!(config.history_size, 20);
}

#[test]
fn registering_twice_keeps_the_second_and_warns_once() {
    let mut config = ConsoleConfiguration::default();
    let first = config.register("log", described("first"));
    let second = config.register("log", described("second"));
    assert_eq!(first, None);
    assert_eq!(
        second,
        Some("warning: console command 'log' already registered and was overwritten".to_string())
    );
    assert_eq!(config.commands.len(), 1);
    assert_eq!(about(config.commands.get("log").unwrap()), "second");
}

#[test]
fn insert_returns_what_it_replaces() {
    let mut registry = CommandRegistry::new();
    assert!(registry.insert("a", described("one")).is_none());
    let replaced = registry.insert("a", described("two")).unwrap();
    assert_eq!(about(&replaced), "one");
    assert_eq!(about(registry.get("a").unwrap()), "two");
}

#[test]
fn names_are_kept_in_order() {
    let mut registry = CommandRegistry::new();
    for name in ["log", "exit", "help", "a", "zz", "logs", "lo", "Zed", "é", ""] {
        assert!(registry.insert(name, described("x")).is_none());
    }
    assert_eq!(names(&registry), vec!["", "Zed", "a", "exit", "help", "lo", "log", "logs", "zz", "é"]);
    assert_eq!(registry.len(), 10);
    assert!(registry.entry(10).is_none());
    for name in ["log", "exit", "help", "a", "zz", "logs", "lo", "Zed", "é", ""] {
        assert!(registry.contains_key(name));
    }
    assert!(!registry.contains_key("b"));
    assert!(!registry.contains_key("zzz"));
}

#[test]
fn entries_pair_names_with_their_descriptions() {
    let mut registry = CommandRegistry::new();
    registry.insert("b", described("second"));
    registry.insert("a", described("first"));
    registry.insert("c", described("third"));
    registry.insert("b", described("middle"));
    let listed: Vec<(String, String)> = (0..registry.len())
        .map(|i| {
            let (name, command) = registry.entry(i).unwrap();
            (name.to_string(), about(command))
        })
        .collect();
    assert_eq!(
        listed,
        vec![
            ("a".to_string(), "first".to_string()),
            ("b".to_string(), "middle".to_string()),
            ("c".to_string(), "third".to_string()),
        ]
    );
}

#[test]
fn a_clone_holds_the_same_commands() {
    let mut config = ConsoleConfiguration::default();
    config.history_size = 7;
    config.register("b", described("bee"));
    config.register("a", described("ay"));
    let copy = config.clone();
    config.register("a", described("changed"));
    assert_eq!(copy.history_size, 7);
    assert_eq!(names(&copy.commands), vec!["a", "b"]);
    assert_eq!(about(copy.commands.get("a").unwrap()), "ay");
    assert_eq!(about(copy.commands.get("b").unwrap()), "bee");
}

#[test]
fn compare_names_by_bytes() {
    assert_eq!(compare_names("a", "b"), NameOrder::Before);
    assert_eq!(compare_names("b", "a"), NameOrder::After);
    assert_eq!(compare_names("log", "log"), NameOrder::Same);
    assert_eq!(compare_names("", ""), NameOrder::Same);
    assert_eq!(compare_names("", "a"), NameOrder::Before);
    assert_eq!(compare_names("log", "logs"), NameOrder::Before);
    assert_eq!(compare_names("logs", "log"), NameOrder::After);
    assert_eq!(compare_names("Z", "a"), NameOrder::Before);
    assert_eq!(compare_names("z", "é"), NameOrder::Before);
    assert_eq!(compare_names("é", "e"), NameOrder::After);
    assert_eq!(compare_names("\u{ffff}", "\u{10000}"), NameOrder::Before);
}

#[test]
fn compare_names_agrees_with_str() {
    let samples = ["", "a", "ab", "b", "B", "é", "e\u{301}", "\u{10000}", "zz", "log", "logs"];
    for a in samples {
        for b in samples {
            let expected = match a.cmp(b) {
                std::cmp::Ordering::Less => NameOrder::Before,
                std::cmp::Ordering::Equal => NameOrder::Same,
                std::cmp::Ordering::Greater => NameOrder::After,
            };
            assert_eq!(compare_names(a, b), expected);
        }
    }
}

struct Exit;

impl NamedCommand for Exit {
    const NAME: &'static str = "exit";
}

impl TypedCommand for Exit {
    fn command() -> clap::Command {
        clap::Command::new("exit").about("Leaves")
    }

    fn from_arg_matches(_matches: &clap::ArgMatches) -> Result<Self, ParseError> {
        Ok(Exit)
    }
}

#[test]
fn add_console_command_registers_under_the_name_of_the_type() {
    let mut config = ConsoleConfiguration::default();
    assert_eq!(config.add_console_command::<Exit>(), None);
    assert!(config.commands.contains_key("exit"));
    assert_eq!(about(config.commands.get("exit").unwrap()), "Leaves");
    assert!(config.commands.get("exit").unwrap().is_no_binary_name_set());
    assert_eq!(
        config.add_console_command::<Exit>(),
        Some("warning: console command 'exit' already registered and was overwritten".to_string())
    );
    assert_eq!(config.commands.len(), 1);
    assert_eq!(config.history_size, 20);
}
