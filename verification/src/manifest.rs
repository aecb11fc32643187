//! The project manifest data: the build description a project declares, and
//! the registry-sourced commands it may pull. Reading and writing the file
//! is the host's business.

use vstd::prelude::*;

verus! {

/// The manifest: its schema version and the optional build description.
#[derive(Debug, Clone)]
pub struct Manifest {
    pub schema_version: Option<u32>,
    pub build: Option<BuildManifest>,
}

/// The build description: package name and version, output location, and
/// the directories and registry commands the build draws from.
#[derive(Debug, Clone)]
pub struct BuildManifest {
    pub name: Option<String>,
    pub version: Option<String>,
    pub output: Option<String>,
    pub defaults_dir: Option<String>,
    pub commands_dir: Option<String>,
    pub commands: Option<Vec<RegistryCommand>>,
}

/// One registry-sourced command: its dispatch name, repository, and the
/// requested tag or digest.
#[derive(Debug, Clone)]
pub struct RegistryCommand {
    pub name: String,
    pub repo: String,
    pub reference: String,
}

/// A manifest together with the directory it was found in.
#[derive(Debug, Clone)]
pub struct LoadedManifest {
    pub base_dir: String,
    pub manifest: Manifest,
}

impl Default for Manifest {
    /// A manifest declaring nothing.
    fn default() -> (d: Manifest)
        ensures
            d.schema_version is None,
            d.build is None,
    {
        Manifest { schema_version: None, build: None }
    }
}

impl Default for BuildManifest {
    /// A build description declaring nothing.
    fn default() -> (d: BuildManifest)
        ensures
            d.name is None,
            d.version is None,
            d.output is None,
            d.defaults_dir is None,
            d.commands_dir is None,
            d.commands is None,
    {
        BuildManifest {
            name: None,
            version: None,
            output: None,
            defaults_dir: None,
            commands_dir: None,
            commands: None,
        }
    }
}

/// The manifest a fresh project starts from: the example namespace applied
/// to the project name, the default version, the derived output name, and
/// the conventional directories.
pub fn default_manifest(project_name: &str) -> (m: Manifest)
    ensures
        m.schema_version == Some(1u32),
        m.build is Some,
        m.build->Some_0.name is Some,
        m.build->Some_0.name->Some_0@ == "example:"@ + project_name@,
        m.build->Some_0.version is Some,
        m.build->Some_0.version->Some_0@ == "0.1.0"@,
        m.build->Some_0.output is Some,
        m.build->Some_0.output->Some_0@ == project_name@ + ".component.wasm"@,
        m.build->Some_0.defaults_dir is Some,
        m.build->Some_0.defaults_dir->Some_0@ == "defaults"@,
        m.build->Some_0.commands_dir is Some,
        m.build->Some_0.commands_dir->Some_0@ == "commands"@,
        m.build->Some_0.commands is None,
{
    let mut name: String = "example:".to_owned();
    name.append(project_name);
    let mut output: String = project_name.to_owned();
    output.append(".component.wasm");
    Manifest {
        schema_version: Some(1),
        build: Some(
            BuildManifest {
                name: Some(name),
                version: Some("0.1.0".to_owned()),
                output: Some(output),
                defaults_dir: Some("defaults".to_owned()),
                commands_dir: Some("commands".to_owned()),
                commands: None,
            },
        ),
    }
}

} // verus!
