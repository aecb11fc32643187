//! Tests of the composition-source generators.

use wacli::compose;
use wacli::metadata::{CommandMeta, CommandMetadataV1};
use wacli::scan::CommandInfo;
use wacli::wac::generate_wac;

fn cmd_named(name: &str) -> CommandInfo {
    CommandInfo {
        name: name.to_string(),
        path: format!("commands/{name}.component.wasm"),
        imports: Vec::new(),
        metadata: CommandMetadataV1 {
            format_version: 1,
            command_meta: CommandMeta { name: name.to_string(), ..Default::default() },
            command_schema: None,
        },
    }
}

#[test]
fn test_generate_wac_empty_commands() {
    let wac = generate_wac("example:my-cli", &vec![]);
    assert!(wac.contains("package example:my-cli;"));
    assert!(wac.contains("let host = new wacli:host"));
    assert!(wac.contains("let registry = new wacli:registry"));
    assert!(wac.contains("let core = new wacli:core"));
    assert!(wac.contains("export core.run;"));
}

#[test]
fn test_generate_wac_with_commands() {
    let commands = vec![cmd_named("greet"), cmd_named("hello-world")];
    let wac = generate_wac("example:hello-cli", &commands);
    assert!(wac.contains("package example:hello-cli;"));
    assert!(wac.contains("let greet = new wacli:cmd-greet"));
    assert!(wac.contains("let hello_world = new wacli:cmd-hello-world"));
    assert!(wac.contains("greet-command: greet.command"));
    assert!(wac.contains("hello-world-command: hello_world.command"));
    assert!(wac.contains("export core.run;"));
}

#[test]
fn test_var_name_conversion() {
    let cmd = cmd_named("my-command");
    assert_eq!(cmd.var_name(), "my_command");
}

#[test]
fn test_generate_wac() {
    let manifest = compose::Manifest {
        package: compose::PackageDecl {
            name: "example:hello-cli".to_string(),
            version: Some("0.1.0".to_string()),
        },
        framework: compose::Framework {
            host: "host.component.wasm".to_string(),
            core: "core.component.wasm".to_string(),
            registry: "registry.component.wasm".to_string(),
        },
        command: vec![compose::Command {
            name: "greet".to_string(),
            package: Some("example:greeter".to_string()),
            plugin: "greeter.component.wasm".to_string(),
            aliases: vec![],
        }],
        output: Some(compose::Output { path: "output.wasm".to_string() }),
    };
    let wac = compose::generate_wac(&manifest);
    assert!(wac.contains("package example:hello-cli;"));
    assert!(wac.contains("let greeter = new example:greeter"));
    assert!(wac.contains("export core.run;"));
}

#[test]
fn output_path_defaults_when_unset() {
    let manifest = compose::Manifest {
        package: compose::PackageDecl { name: "example:x".to_string(), version: None },
        framework: compose::Framework {
            host: "h".to_string(),
            core: "c".to_string(),
            registry: "r".to_string(),
        },
        command: vec![],
        output: None,
    };
    assert_eq!(manifest.output_path(), "dist/output.component.wasm");
}
