use andrust::command::{show_help, show_version, CommandOptions, CommandState, Notice};

fn strings(items: &[&str]) -> Vec<String> {
    items.iter().map(|s| s.to_string()).collect()
}

fn table(items: &[(&str, &str)]) -> Vec<(String, String)> {
    items.iter().map(|(k, v)| (k.to_string(), v.to_string())).collect()
}

fn options(state: CommandState) -> CommandOptions {
    match state {
        CommandState::Options(options) => options,
        CommandState::ExitWithPrint(_) => panic!("options expected"),
    }
}

fn notice(state: CommandState) -> Notice {
    match state {
        CommandState::Options(_) => panic!("notice expected"),
        CommandState::ExitWithPrint(notice) => notice,
    }
}

#[test]
fn parse_args_pairs_options_with_objects() {
    let parsed = CommandState::parse_args(&strings(&["andrust", "-r", "proj", "--ndk", "/ndk"]));
    assert_eq!(parsed, table(&[("-r", "proj"), ("--ndk", "/ndk")]));
}

#[test]
fn parse_args_gives_a_trailing_option_the_empty_object() {
    let parsed = CommandState::parse_args(&strings(&["andrust", "-v"]));
    assert_eq!(parsed, table(&[("-v", "")]));
}

#[test]
fn parse_args_takes_the_argument_after_an_option_as_its_object() {
    let parsed = CommandState::parse_args(&strings(&["-r", "-n", "x", "-h"]));
    assert_eq!(parsed, table(&[("-r", "-n"), ("-h", "")]));
}

#[test]
fn parse_args_passes_over_stray_arguments() {
    let parsed = CommandState::parse_args(&strings(&["andrust", "stray", "", "-n", "ndk", "more"]));
    assert_eq!(parsed, table(&[("-n", "ndk")]));
}

#[test]
fn parse_args_keeps_the_last_object_of_a_repeated_option() {
    let parsed = CommandState::parse_args(&strings(&["-r", "one", "-n", "ndk", "-r", "two"]));
    assert_eq!(parsed, table(&[("-r", "two"), ("-n", "ndk")]));
}

#[test]
fn parse_args_of_nothing_is_empty() {
    assert!(CommandState::parse_args(&Vec::new()).is_empty());
}

#[test]
fn from_reads_both_roots() {
    let opts = options(CommandState::from(table(&[("--root", "proj"), ("-n", "/ndk")])));
    assert_eq!(opts.proj_root(), Some("proj"));
    assert_eq!(opts.ndk_root(), Some("/ndk"));
}

#[test]
fn from_takes_the_last_of_two_spellings() {
    let opts = options(CommandState::from(table(&[("-r", "short"), ("--root", "long")])));
    assert_eq!(opts.proj_root(), Some("long"));
    assert_eq!(opts.ndk_root(), None);
}

#[test]
fn from_passes_over_unknown_options() {
    let opts = options(CommandState::from(table(&[("-x", "1"), ("--ndk", "/ndk")])));
    assert_eq!(opts.proj_root(), None);
    assert_eq!(opts.ndk_root(), Some("/ndk"));
}

#[test]
fn from_of_nothing_is_the_default() {
    let opts = options(CommandState::from(Vec::new()));
    assert_eq!(opts.proj_root(), None);
    assert_eq!(opts.ndk_root(), None);
    let opts = CommandOptions::default();
    assert_eq!(opts.proj_root(), None);
    assert_eq!(opts.ndk_root(), None);
}

#[test]
fn from_stops_at_the_first_notice() {
    assert_eq!(notice(CommandState::from(table(&[("-r", "p"), ("-v", "")]))), Notice::Version);
    assert_eq!(notice(CommandState::from(table(&[("--version", "")]))), Notice::Version);
    assert_eq!(notice(CommandState::from(table(&[("-h", ""), ("-v", "")]))), Notice::Help);
    assert_eq!(notice(CommandState::from(table(&[("--help", "x"), ("-n", "y")]))), Notice::Help);
}

#[test]
fn new_reads_the_arguments() {
    let opts = options(CommandState::new(strings(&["andrust", "-n", "/ndk", "-r", "proj"])));
    assert_eq!(opts.ndk_root(), Some("/ndk"));
    assert_eq!(opts.proj_root(), Some("proj"));
    assert_eq!(notice(CommandState::new(strings(&["andrust", "--help"]))), Notice::Help);
    assert_eq!(notice(CommandState::new(strings(&["andrust", "-r", "p", "-v"]))), Notice::Version);
}

#[test]
fn version_text() {
    assert_eq!(show_version("0.1.0"), "andrust 0.1.0\n        ");
    assert_eq!(Notice::Version.render("1.2.3"), "andrust 1.2.3\n        ");
}

#[test]
fn help_text() {
    let expected = "andrust is a helper to set up android cross compilation configuration for rust project\n\nUSAGE:\n    andrust [OPTIONS] [OBJECT]\n\nOPTIONS:\n    -r, --root              Set rust project root directory, default path is .\n    -h, --home              Set NDK home directory\n    -v, --version           Prints version information\n    -h, --help              Prints help information\n    ";
    assert_eq!(show_help(), expected);
    assert_eq!(Notice::Help.render("0.1.0"), expected);
}
