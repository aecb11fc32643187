//! Tests of the schema-driven argument parser and help renderer.

use wacli::argparse::claplike::{self, ParseError, ParseOutcome};
use wacli::metadata::{ArgSchema, CommandSchema};

fn strs(items: &[&str]) -> Vec<String> {
    items.iter().map(|s| s.to_string()).collect()
}

#[test]
fn help_includes_builtins() {
    let meta = CommandSchema {
        name: "show".to_string(),
        summary: "Show a file".to_string(),
        usage: "show [OPTIONS] <FILE>".to_string(),
        description: "Display a file to stdout.".to_string(),
        examples: vec!["show hello.txt".to_string()],
        args: vec![
            ArgSchema {
                name: "file".to_string(),
                help: "File to show".to_string(),
                required: true,
                value_name: Some("FILE".to_string()),
                takes_value: true,
                multiple: true,
                ..Default::default()
            },
            ArgSchema {
                name: "verbose".to_string(),
                short: Some("-v".to_string()),
                long: Some("--verbose".to_string()),
                help: "Verbose output".to_string(),
                takes_value: false,
                multiple: true,
                ..Default::default()
            },
        ],
        ..Default::default()
    };
    let text = claplike::help(&meta);
    assert!(text.contains("Usage: show [OPTIONS] <FILE>"));
    assert!(text.contains("Options:"));
    assert!(text.contains("--help"));
    assert!(text.contains("--version"));
    assert!(text.contains("--verbose"));
}

#[test]
fn lib_parse_supports_combined_short_flags_and_attached_value() {
    let meta = CommandSchema {
        name: "show".to_string(),
        args: vec![
            ArgSchema {
                name: "verbose".to_string(),
                short: Some("-v".to_string()),
                help: "Verbose output".to_string(),
                takes_value: false,
                multiple: true,
                ..Default::default()
            },
            ArgSchema {
                name: "output".to_string(),
                short: Some("-o".to_string()),
                value_name: Some("FILE".to_string()),
                help: "Output file".to_string(),
                takes_value: true,
                multiple: true,
                ..Default::default()
            },
            ArgSchema {
                name: "file".to_string(),
                required: true,
                value_name: Some("FILE".to_string()),
                takes_value: true,
                multiple: true,
                ..Default::default()
            },
        ],
        ..Default::default()
    };
    let argv = strs(&["-voout.txt", "in.txt"]);
    let outcome = claplike::parse(&meta, &argv).unwrap();
    let ParseOutcome::Matches(m) = outcome else {
        panic!("expected Matches");
    };
    assert!(m.is_present("verbose"));
    assert_eq!(m.get("output").as_deref(), Some("out.txt"));
    assert_eq!(m.get("file").as_deref(), Some("in.txt"));
}

#[test]
fn validate_aliases_rejects_conflicts() {
    let a = CommandSchema {
        name: "alpha".to_string(),
        aliases: vec!["beta".to_string()],
        ..Default::default()
    };
    let b = CommandSchema { name: "beta".to_string(), ..Default::default() };
    let err = claplike::validate_aliases(&vec![a, b]).unwrap_err();
    match err {
        ParseError::Failed(msg) => assert!(msg.contains("alias conflict")),
        other => panic!("expected Failed, got: {other:?}"),
    }
}

#[test]
fn parse_with_env_respects_precedence() {
    let meta = CommandSchema {
        name: "cmd".to_string(),
        args: vec![ArgSchema {
            name: "format".to_string(),
            long: Some("--format".to_string()),
            value_name: Some("FMT".to_string()),
            takes_value: true,
            default_value: Some("plain".to_string()),
            env: Some("FORMAT".to_string()),
            possible_values: vec![
                "plain".to_string(),
                "json".to_string(),
                "xml".to_string(),
            ],
            multiple: true,
            ..Default::default()
        }],
        ..Default::default()
    };

    // env beats default
    let argv: Vec<String> = vec![];
    let env = vec![("FORMAT".to_string(), "json".to_string())];
    let ParseOutcome::Matches(m) = claplike::parse_with_env(&meta, &argv, &env).unwrap() else {
        panic!("expected Matches");
    };
    assert_eq!(m.get("format").as_deref(), Some("json"));

    // default used when env absent
    let env: Vec<(String, String)> = vec![];
    let ParseOutcome::Matches(m) = claplike::parse_with_env(&meta, &argv, &env).unwrap() else {
        panic!("expected Matches");
    };
    assert_eq!(m.get("format").as_deref(), Some("plain"));

    // argv beats env
    let argv = strs(&["--format", "xml"]);
    let env = vec![("FORMAT".to_string(), "json".to_string())];
    let ParseOutcome::Matches(m) = claplike::parse_with_env(&meta, &argv, &env).unwrap() else {
        panic!("expected Matches");
    };
    assert_eq!(m.get("format").as_deref(), Some("xml"));
}

#[test]
fn validate_rejects_invalid_value() {
    let meta = CommandSchema {
        name: "cmd".to_string(),
        args: vec![ArgSchema {
            name: "format".to_string(),
            long: Some("--format".to_string()),
            value_name: Some("FMT".to_string()),
            takes_value: true,
            possible_values: vec!["plain".to_string(), "json".to_string()],
            multiple: true,
            ..Default::default()
        }],
        ..Default::default()
    };
    let argv = strs(&["--format", "xml"]);
    let err = claplike::validate(&meta, &argv).unwrap_err();
    match err {
        ParseError::InvalidArgs(msg) => assert!(msg.contains("invalid value")),
        other => panic!("expected InvalidArgs, got: {other:?}"),
    }
}

#[test]
fn validate_rejects_conflicts_with() {
    let meta = CommandSchema {
        name: "cmd".to_string(),
        args: vec![
            ArgSchema {
                name: "a".to_string(),
                long: Some("--a".to_string()),
                takes_value: false,
                conflicts_with: vec!["b".to_string()],
                multiple: true,
                ..Default::default()
            },
            ArgSchema {
                name: "b".to_string(),
                long: Some("--b".to_string()),
                takes_value: false,
                multiple: true,
                ..Default::default()
            },
        ],
        ..Default::default()
    };
    let argv = strs(&["--a", "--b"]);
    let err = claplike::validate(&meta, &argv).unwrap_err();
    match err {
        ParseError::InvalidArgs(msg) => assert!(msg.contains("cannot be used with")),
        other => panic!("expected InvalidArgs, got: {other:?}"),
    }
}

#[test]
fn validate_rejects_requires() {
    let meta = CommandSchema {
        name: "cmd".to_string(),
        args: vec![
            ArgSchema {
                name: "a".to_string(),
                long: Some("--a".to_string()),
                takes_value: false,
                requires: vec!["b".to_string()],
                multiple: true,
                ..Default::default()
            },
            ArgSchema {
                name: "b".to_string(),
                long: Some("--b".to_string()),
                takes_value: false,
                multiple: true,
                ..Default::default()
            },
        ],
        ..Default::default()
    };
    let argv = strs(&["--a"]);
    let err = claplike::validate(&meta, &argv).unwrap_err();
    match err {
        ParseError::InvalidArgs(msg) => assert!(msg.contains("requires")),
        other => panic!("expected InvalidArgs, got: {other:?}"),
    }
}

#[test]
fn validate_rejects_multiple_when_disabled() {
    let meta = CommandSchema {
        name: "cmd".to_string(),
        args: vec![ArgSchema {
            name: "out".to_string(),
            long: Some("--out".to_string()),
            value_name: Some("FILE".to_string()),
            takes_value: true,
            multiple: false,
            ..Default::default()
        }],
        ..Default::default()
    };
    let argv = strs(&["--out", "a.txt", "--out", "b.txt"]);
    let err = claplike::validate(&meta, &argv).unwrap_err();
    match err {
        ParseError::InvalidArgs(msg) => assert!(msg.contains("multiple times")),
        other => panic!("expected InvalidArgs, got: {other:?}"),
    }
}

#[test]
fn help_omits_hidden_args() {
    let meta = CommandSchema {
        name: "cmd".to_string(),
        args: vec![
            ArgSchema {
                name: "visible".to_string(),
                long: Some("--visible".to_string()),
                help: "Visible".to_string(),
                takes_value: false,
                multiple: true,
                ..Default::default()
            },
            ArgSchema {
                name: "secret".to_string(),
                long: Some("--secret".to_string()),
                help: "Secret".to_string(),
                takes_value: false,
                hidden: true,
                multiple: true,
                ..Default::default()
            },
        ],
        ..Default::default()
    };
    let text = claplike::help(&meta);
    assert!(text.contains("--visible"));
    assert!(!text.contains("--secret"));
}

#[test]
fn resolve_command_name_prefers_canonical_names() {
    let a = CommandSchema {
        name: "alpha".to_string(),
        aliases: vec!["al".to_string()],
        ..Default::default()
    };
    let b = CommandSchema { name: "beta".to_string(), ..Default::default() };
    let metas = vec![a, b];
    assert_eq!(claplike::resolve_command_name(&metas, "beta").as_deref(), Some("beta"));
    assert_eq!(claplike::resolve_command_name(&metas, "al").as_deref(), Some("alpha"));
    assert_eq!(claplike::resolve_command_name(&metas, "gamma"), None);
}

#[test]
fn version_renders_name_and_trimmed_version() {
    let meta = CommandSchema {
        name: "cmd".to_string(),
        version: " 1.2.3 ".to_string(),
        ..Default::default()
    };
    assert_eq!(claplike::version(&meta), "cmd 1.2.3\n");
    let bare = CommandSchema { name: "cmd".to_string(), ..Default::default() };
    assert_eq!(claplike::version(&bare), "cmd\n");
}
