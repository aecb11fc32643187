//! Tests of the command development kit: positional helpers, flag helpers,
//! the builders, and metadata-driven parsing.

use wacli::cdk::{arg, args, meta, parse, CommandError};

fn strs(items: &[&str]) -> Vec<String> {
    items.iter().map(|s| s.to_string()).collect()
}

#[test]
fn positional_skips_flags() {
    let argv = strs(&["--loud", "--", "Bob"]);
    assert_eq!(args::positional(&argv, 0).as_deref(), Some("Bob"));
}

#[test]
fn positional_does_not_guess_long_flag_values() {
    let argv = strs(&["--format", "json", "file.txt"]);
    assert_eq!(args::positional(&argv, 0).as_deref(), Some("json"));
}

#[test]
fn positional_does_not_guess_short_flag_values() {
    let argv = strs(&["-o", "out.txt", "file"]);
    assert_eq!(args::positional(&argv, 0).as_deref(), Some("out.txt"));
}

#[test]
fn positional_after_separator() {
    let argv = strs(&["--", "--not-a-flag", "Bob"]);
    assert_eq!(args::positional(&argv, 0).as_deref(), Some("--not-a-flag"));
    assert_eq!(args::positional(&argv, 1).as_deref(), Some("Bob"));
}

#[test]
fn positional_keeps_positional_after_boolean_flags() {
    let argv = strs(&["--verbose", "hello.txt"]);
    assert_eq!(args::positional(&argv, 0).as_deref(), Some("hello.txt"));

    let argv = strs(&["-v", "hello.txt"]);
    assert_eq!(args::positional(&argv, 0).as_deref(), Some("hello.txt"));
}

#[test]
fn flag_multiple_names() {
    let argv = strs(&["-l", "Bob"]);
    assert!(args::flag(&argv, &strs(&["-l", "--loud"])));
}

#[test]
fn flag_stops_at_separator() {
    let argv = strs(&["--", "--loud"]);
    assert!(!args::flag(&argv, &strs(&["--loud"])));
}

#[test]
fn value_stops_at_separator() {
    let argv = strs(&["--", "--name", "Bob"]);
    assert_eq!(args::value(&argv, "--name"), None);
}

#[test]
fn positional_with_schema_skips_known_value_flags() {
    let argv = strs(&["--format", "json", "file.txt"]);
    let schema = args::Schema::new().value_flag("--format");
    assert_eq!(args::positional_with_schema(&argv, 0, &schema).as_deref(), Some("file.txt"));
    assert_eq!(args::positional_args_with_schema(&argv, &schema), vec!["file.txt"]);
}

#[test]
fn parse_does_not_consume_positional_for_boolean_flag() {
    let meta = meta("show")
        .arg(arg("verbose").long("--verbose").help("Verbose output"))
        .arg(arg("file").required(true).value_name("FILE").help("File to show"))
        .build();
    let argv = strs(&["--verbose", "hello.txt"]);
    let m = parse(&meta, &argv).unwrap();
    assert!(m.is_present("verbose"));
    assert_eq!(m.get("file").as_deref(), Some("hello.txt"));
}

#[test]
fn parse_consumes_value_for_value_flag_even_if_it_starts_with_dash() {
    let meta = meta("show")
        .arg(arg("output").long("--output").value_name("FILE").help("Output file"))
        .arg(arg("file").required(true).value_name("FILE").help("Input file"))
        .build();
    let argv = strs(&["--output", "-", "in.txt"]);
    let m = parse(&meta, &argv).unwrap();
    assert_eq!(m.get("output").as_deref(), Some("-"));
    assert_eq!(m.get("file").as_deref(), Some("in.txt"));
}

#[test]
fn parse_supports_combined_short_flags_and_attached_value() {
    let meta = meta("show")
        .arg(arg("verbose").short("-v").help("Verbose output"))
        .arg(arg("output").short("-o").value_name("FILE").help("Output file"))
        .arg(arg("file").required(true).value_name("FILE").help("Input file"))
        .build();
    let argv = strs(&["-voout.txt", "in.txt"]);
    let m = parse(&meta, &argv).unwrap();
    assert!(m.is_present("verbose"));
    assert_eq!(m.get("output").as_deref(), Some("out.txt"));
    assert_eq!(m.get("file").as_deref(), Some("in.txt"));
}

#[test]
fn parse_applies_default_value_for_missing_value_flag() {
    let meta = meta("show")
        .arg(
            arg("format").long("--format").value_name("PIPE").default_value("plain").help(
                "Format pipe",
            ),
        )
        .build();
    let argv: Vec<String> = Vec::new();
    let m = parse(&meta, &argv).unwrap();
    assert_eq!(m.get("format").as_deref(), Some("plain"));
}

#[test]
fn parse_errors_on_missing_required_positional() {
    let meta = meta("show")
        .arg(arg("file").required(true).value_name("FILE").help("File to show"))
        .build();
    let argv: Vec<String> = Vec::new();
    let err = parse(&meta, &argv).unwrap_err();
    match err {
        CommandError::InvalidArgs(msg) => {
            assert_eq!(msg, "missing required argument: <FILE>");
        },
        other => panic!("expected InvalidArgs, got: {other:?}"),
    }
}

#[test]
fn parse_errors_on_missing_required_option() {
    let meta = meta("show")
        .arg(arg("output").long("--output").required(true).value_name("FILE").help("Output file"))
        .build();
    let argv: Vec<String> = Vec::new();
    let err = parse(&meta, &argv).unwrap_err();
    match err {
        CommandError::InvalidArgs(msg) => {
            assert_eq!(msg, "missing required argument: --output <FILE>");
        },
        other => panic!("expected InvalidArgs, got: {other:?}"),
    }
}

#[test]
fn help_renders_options_and_args_sections() {
    let meta = meta("show")
        .summary("Show a file")
        .usage("show [OPTIONS] <FILE>")
        .description("Display a file to stdout.")
        .example("show hello.txt")
        .arg(arg("file").required(true).value_name("FILE").help("File to show"))
        .arg(arg("verbose").short("-v").long("--verbose").help("Verbose output"))
        .build();
    let text = args::help(&meta);
    assert!(text.contains("Usage: show [OPTIONS] <FILE>"));
    assert!(text.contains("Arguments:"));
    assert!(text.contains("<FILE>"));
    assert!(text.contains("Options:"));
    assert!(text.contains("--help"));
    assert!(text.contains("--version"));
    assert!(text.contains("--verbose"));
    assert!(text.contains("Examples:"));
    assert!(text.contains("show hello.txt"));
}

#[test]
fn context_exposes_arguments_and_environment() {
    let ctx = wacli::cdk::Context::new(
        strs(&["--name=Bob", "file.txt"]),
        vec![("HOME".to_string(), "/home".to_string())],
    );
    assert_eq!(ctx.positional_args(), vec!["file.txt"]);
    assert_eq!(ctx.arg(0).as_deref(), Some("file.txt"));
    assert_eq!(ctx.value("--name").as_deref(), Some("Bob"));
    assert!(ctx.require_arg(1, "<EXTRA>").is_err());
}
