//! Tests of the router's decisions and fixed messages.

use wacli::bodies::AppMeta;
use wacli::cdk::CommandError;
use wacli::metadata::CommandSchema;
use wacli::router::{command_error_report, find_command_schema, global_version_line,
    internal_error_line, program_display_name, split_program_and_argv, unknown_command_line};

fn schema_named(name: &str, aliases: &[&str]) -> CommandSchema {
    CommandSchema {
        name: name.to_string(),
        aliases: aliases.iter().map(|s| s.to_string()).collect(),
        ..Default::default()
    }
}

#[test]
fn invocation_splits_into_program_and_arguments() {
    let (program, argv) = split_program_and_argv(vec![
        "/usr/bin/demo".to_string(),
        "greet".to_string(),
        "Bob".to_string(),
    ]);
    assert_eq!(program, "/usr/bin/demo");
    assert_eq!(argv, vec!["greet", "Bob"]);
    let (program, argv) = split_program_and_argv(Vec::new());
    assert_eq!(program, "");
    assert!(argv.is_empty());
}

#[test]
fn display_name_takes_the_last_path_segment() {
    assert_eq!(program_display_name("/usr/bin/demo"), "demo");
    assert_eq!(program_display_name("demo"), "demo");
    assert_eq!(program_display_name("trailing/"), "trailing/");
}

#[test]
fn schema_resolution_prefers_canonical_names_over_aliases() {
    let schemas = vec![schema_named("alpha", &["b"]), schema_named("b", &[])];
    assert_eq!(find_command_schema(&schemas, "b").unwrap().name, "b");
    assert_eq!(find_command_schema(&schemas, "alpha").unwrap().name, "alpha");
    assert!(find_command_schema(&schemas, "gamma").is_none());
}

#[test]
fn fixed_messages_render_exactly() {
    let app = AppMeta {
        name: " demo ".to_string(),
        version: String::new(),
        description: String::new(),
    };
    assert_eq!(global_version_line("/bin/x", &app, "9.9.9"), "demo 9.9.9\n");
    assert_eq!(internal_error_line("boom \n"), "Internal error: boom\n");
    assert_eq!(unknown_command_line("bye"), "Unknown command: bye\n");
    let report = command_error_report(&CommandError::UnknownCommand("bye".to_string()));
    assert_eq!(report, "Unknown command: bye\nRun with --help to see available commands.\n");
}
