//! Tests of the registry compiler: name rules, the string table, the name
//! table, the dispatch model, the template filler, and full generation.

use wacli::bodies::AppMeta;
use wacli::dispatch::resolve_dispatch;
use wacli::emit::apply_template;
use wacli::gen::{add_custom_section, align_up, build_string_table, compute_heap_start,
    generate_registry, parse_package_name};
use wacli::metadata::{ArgDef, CommandMeta, CommandMetadataV1, CommandSchema};
use wacli::regbin::build_name_table;
use wacli::scan::{command_ident, exports_command_interface, is_valid_command_name, CommandInfo};
use wacli::strtab::StringTable;
use wacli::text::{dec_u32, sanitize_path_segment, trim};

fn meta_named(name: &str) -> CommandMeta {
    CommandMeta { name: name.to_string(), ..Default::default() }
}

fn cmd_named(name: &str) -> CommandInfo {
    CommandInfo {
        name: name.to_string(),
        path: format!("commands/{name}.component.wasm"),
        imports: Vec::new(),
        metadata: CommandMetadataV1 {
            format_version: 1,
            command_meta: meta_named(name),
            command_schema: None,
        },
    }
}

#[test]
fn test_valid_command_names() {
    assert!(is_valid_command_name("help"));
    assert!(is_valid_command_name("greet"));
    assert!(is_valid_command_name("my-command"));
    assert!(is_valid_command_name("cmd123"));
    assert!(is_valid_command_name("a"));
    assert!(is_valid_command_name("a1"));
    assert!(is_valid_command_name("hello-world-test"));
}

#[test]
fn test_invalid_command_names() {
    assert!(!is_valid_command_name(""));
    assert!(!is_valid_command_name("1cmd"));
    assert!(!is_valid_command_name("-cmd"));
    assert!(!is_valid_command_name("Cmd"));
    assert!(!is_valid_command_name("CMD"));
    assert!(!is_valid_command_name("my_cmd"));
    assert!(!is_valid_command_name("cmd-"));
    assert!(!is_valid_command_name("my.cmd"));
}

#[test]
fn test_command_info_var_name() {
    let cmd = CommandInfo {
        name: "my-command".to_string(),
        path: "test.wasm".to_string(),
        imports: Vec::new(),
        metadata: CommandMetadataV1 {
            format_version: 1,
            command_meta: CommandMeta { name: "my-command".to_string(), ..Default::default() },
            command_schema: None,
        },
    };
    assert_eq!(cmd.var_name(), "my_command");
}

#[test]
fn test_command_info_package_name() {
    let cmd = CommandInfo {
        name: "greet".to_string(),
        path: "test.wasm".to_string(),
        imports: Vec::new(),
        metadata: CommandMetadataV1 {
            format_version: 1,
            command_meta: CommandMeta { name: "greet".to_string(), ..Default::default() },
            command_schema: None,
        },
    };
    assert_eq!(cmd.package_name(), "wacli:cmd-greet");
}

#[test]
fn test_build_name_table() {
    let commands = vec![cmd_named("help"), cmd_named("greet")];
    let table = build_name_table(&commands);
    assert_eq!(table.data, b"helpgreet");
    assert_eq!(table.offsets, vec![(0, 4), (4, 5)]);
}

#[test]
fn sanitize_path_segment_replaces_bad_chars() {
    assert_eq!(sanitize_path_segment("sha256:abc/def"), "sha256_abc_def");
}

#[test]
fn intern_is_idempotent_and_empty_is_sentinel() {
    let mut t = StringTable::new();
    let first = t.intern("greet");
    let len_after_first = t.data_len();
    let second = t.intern("greet");
    assert_eq!(first, second);
    assert_eq!(t.data_len(), len_after_first);
    let empty = t.intern("");
    assert_eq!(empty, (0, 0));
    assert_eq!(t.data_len(), len_after_first);
    assert_eq!(t.get("greet"), first);
    assert_eq!(t.get("unseen"), (0, 0));
}

#[test]
fn interned_strings_have_distinct_locations() {
    let commands = vec![cmd_named("greet"), cmd_named("help")];
    let app = AppMeta {
        name: String::new(),
        version: String::new(),
        description: String::new(),
    };
    let t = build_string_table(&commands, &app);
    let (greet_off, greet_len) = t.get("greet");
    let (help_off, help_len) = t.get("help");
    assert_eq!(greet_len, 5);
    assert_eq!(help_len, 4);
    assert!(greet_off >= 1);
    assert!(help_off >= 1);
    // non-overlapping
    assert!(greet_off + greet_len <= help_off || help_off + help_len <= greet_off);
}

#[test]
fn dispatch_resolves_names_and_aliases_first_match_wins() {
    let commands = vec![cmd_named("greet"), cmd_named("help")];
    assert_eq!(resolve_dispatch(&commands, "greet"), Some(0));
    assert_eq!(resolve_dispatch(&commands, "help"), Some(1));
    assert_eq!(resolve_dispatch(&commands, "bye"), None);
}

#[test]
fn dispatch_length_gate_keeps_prefixed_names_apart() {
    let commands = vec![cmd_named("build"), cmd_named("build2")];
    assert_eq!(resolve_dispatch(&commands, "build"), Some(0));
    assert_eq!(resolve_dispatch(&commands, "build2"), Some(1));
    assert_eq!(resolve_dispatch(&commands, "buil"), None);
}

#[test]
fn dispatch_alias_shadows_later_command_name() {
    let mut a = cmd_named("alpha");
    a.metadata.command_meta.aliases = vec!["b".to_string()];
    let b = cmd_named("b");
    let commands = vec![a, b];
    assert_eq!(resolve_dispatch(&commands, "b"), Some(0));
}

#[test]
fn template_fill_refuses_missing_and_repeated_placeholders() {
    let reps = vec![("{{X}}".to_string(), "1".to_string())];
    assert_eq!(apply_template("a {{X}} b", &reps).unwrap(), "a 1 b");
    assert!(apply_template("a b", &reps).is_err());
    assert!(apply_template("{{X}} {{X}}", &reps).is_err());
}

#[test]
fn decimal_and_alignment_helpers() {
    assert_eq!(dec_u32(0), "0");
    assert_eq!(dec_u32(1234), "1234");
    assert_eq!(align_up(0, 4), 0);
    assert_eq!(align_up(5, 4), 8);
    assert_eq!(align_up(8, 4), 8);
    assert_eq!(align_up(7, 0), 7);
    assert_eq!(compute_heap_start(5), 8 + 1024);
}

#[test]
fn custom_section_framing_is_exact() {
    let module = vec![0u8, b'a', b's', b'm'];
    let data = vec![1u8, 2u8];
    let out = add_custom_section(&module, "nm", &data);
    // id 0, payload size 5, name length 2, "nm", then the data
    assert_eq!(out, vec![0u8, b'a', b's', b'm', 0u8, 5u8, 2u8, b'n', b'm', 1u8, 2u8]);
}

#[test]
fn package_names_parse_and_render() {
    let p = parse_package_name("wacli:cli@2.0.0").unwrap();
    assert_eq!(p.namespace, "wacli");
    assert_eq!(p.name, "cli");
    assert_eq!(p.version.as_deref(), Some("2.0.0"));
    assert_eq!(p.interface_id("greet-command"), "wacli:cli/greet-command@2.0.0");
    let q = parse_package_name("a:b").unwrap();
    assert_eq!(q.interface_id("x"), "a:b/x");
    assert!(parse_package_name("nocolon").is_err());
    assert!(parse_package_name(":empty").is_err());
    assert!(parse_package_name("a:").is_err());
    assert!(parse_package_name("a:b@").is_err());
    assert!(parse_package_name("a:b@notaversion").is_err());
}

#[test]
fn command_identifiers_replace_special_characters() {
    assert_eq!(command_ident("my-command"), "cmd_my_command");
    assert_eq!(command_ident("greet"), "cmd_greet");
}

#[test]
fn export_lists_are_checked_for_the_command_interface() {
    let with = vec!["wacli:cli/command@2.0.0".to_string()];
    let bare = vec!["command".to_string()];
    let without = vec!["other".to_string()];
    assert!(exports_command_interface(&with));
    assert!(exports_command_interface(&bare));
    assert!(!exports_command_interface(&without));
}

#[test]
fn schema_listing_counts_match_authored_descriptors() {
    let mut greet = cmd_named("greet");
    greet.metadata.command_meta.args = vec![
        ArgDef { name: "name".to_string(), takes_value: true, ..Default::default() },
        ArgDef { name: "loud".to_string(), long: Some("--loud".to_string()), ..Default::default() },
    ];
    let commands = vec![greet, cmd_named("help")];
    let app = AppMeta {
        name: "demo".to_string(),
        version: "1.0.0".to_string(),
        description: String::new(),
    };
    let strings = build_string_table(&commands, &app);
    let body = wacli::bodies::build_list_schemas_body(&commands, &strings);
    let text = wacli::emit::render_instrs(&body);
    // the returned pair records exactly two elements
    assert!(text.contains("    local.get $result_ptr\n    i32.const 2\n    i32.store offset=4 align=2\n"));
    // the first record stores its authored argument count of two
    assert!(text.contains("    local.get $record_ptr\n    i32.const 2\n    i32.store offset=64 align=2\n"));
    let synthesized = CommandSchema::from_meta(&commands[0].metadata.command_meta);
    assert_eq!(synthesized.args.len(), 2);
}

#[test]
fn generation_succeeds_and_is_reproducible() {
    let mut greet = cmd_named("greet");
    greet.metadata.command_meta.summary = "Greet someone".to_string();
    greet.metadata.command_meta.aliases = vec!["hi".to_string()];
    greet.metadata.command_meta.args = vec![ArgDef {
        name: "name".to_string(),
        takes_value: true,
        ..Default::default()
    }];
    let commands = vec![greet, cmd_named("help")];
    let app = AppMeta {
        name: "demo".to_string(),
        version: "0.1.0".to_string(),
        description: "A demo tool".to_string(),
    };
    let first = generate_registry(&commands, &app).expect("generation should succeed");
    let second = generate_registry(&commands, &app).expect("generation should succeed");
    assert_eq!(first, second);
    assert!(first.len() > 8);
    assert_eq!(&first[0..4], b"\0asm");
}

#[test]
fn trimming_matches_expectations() {
    assert_eq!(trim("  a b \n"), "a b");
    assert_eq!(trim(""), "");
    assert_eq!(trim(" \t "), "");
}
