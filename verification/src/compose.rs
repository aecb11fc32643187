//! The project manifest of a fixed composition: named framework parts, a
//! command list, and the wiring text generated from them.

use vstd::prelude::*;
use crate::scan::dashes_to_underscores;
use crate::text::{char_rindex, rfind_char};

verus! {

/// The build manifest: the package, the framework parts, the commands, and
/// the optional output location.
#[derive(Debug, Clone)]
pub struct Manifest {
    pub package: PackageDecl,
    pub framework: Framework,
    pub command: Vec<Command>,
    pub output: Option<Output>,
}

/// The composed package: its name and optional version.
#[derive(Debug, Clone)]
pub struct PackageDecl {
    pub name: String,
    pub version: Option<String>,
}

/// Where the framework components live.
#[derive(Debug, Clone)]
pub struct Framework {
    pub host: String,
    pub core: String,
    pub registry: String,
}

/// One command plugin: its dispatch name, optional package name, component
/// path and aliases.
#[derive(Debug, Clone)]
pub struct Command {
    pub name: String,
    pub package: Option<String>,
    pub plugin: String,
    pub aliases: Vec<String>,
}

/// The declared output location.
#[derive(Debug, Clone)]
pub struct Output {
    pub path: String,
}

/// The package name of a command: the declared one, or the default
/// namespace applied to the command name.
pub open spec fn spec_cmd_package_name(c: Command) -> Seq<char> {
    match c.package.deep_view() {
        Some(p) => p,
        None => "example:"@ + c.name@,
    }
}

/// The wiring variable of a command: the part of its package name after the
/// last colon, hyphens replaced by underscores.
pub open spec fn spec_cmd_var_name(c: Command) -> Seq<char> {
    let pkg = spec_cmd_package_name(c);
    let tail = match char_rindex(pkg, ':') {
        Some(i) => pkg.skip(i + 1),
        None => pkg,
    };
    dashes_to_underscores(tail)
}

impl Command {
    /// The package name, defaulting to the example namespace.
    pub fn package_name(&self) -> (r: String)
        ensures
            r@ == spec_cmd_package_name(*self),
    {
        match &self.package {
            Some(p) => p.clone(),
            None => {
                let mut s: String = "example:".to_owned();
                s.append(self.name.as_str());
                s
            },
        }
    }

    /// The wiring variable name, derived from the package name.
    #[verifier::loop_isolation(false)]
    pub fn var_name(&self) -> (r: String)
        ensures
            r@ == spec_cmd_var_name(*self),
    {
        let pkg = self.package_name();
        let n = pkg.as_str().unicode_len();
        let tail: &str = match rfind_char(pkg.as_str(), ':') {
            Some(i) => {
                let t = pkg.as_str().substring_char(i + 1, n);
                proof {
                    assert(t@ =~= pkg@.skip(i + 1));
                }
                t
            },
            None => pkg.as_str(),
        };
        let mut out = String::new();
        let tn = tail.unicode_len();
        let mut i: usize = 0;
        proof {
            assert(out@ =~= dashes_to_underscores(tail@.take(0)));
        }
        while i < tn
            invariant
                0 <= i <= tn,
                out@ == dashes_to_underscores(tail@.take(i as int)),
            decreases tn - i,
        {
            let c = tail.get_char(i);
            if c == '-' {
                crate::text::push_char(&mut out, '_');
            } else {
                crate::text::push_char(&mut out, c);
            }
            proof {
                assert(out@ =~= dashes_to_underscores(tail@.take(i + 1)));
            }
            i = i + 1;
        }
        proof {
            assert(tail@.take(tn as int) =~= tail@);
        }
        out
    }
}

impl Manifest {
    /// The declared output path, or the default location.
    pub fn output_path(&self) -> (r: String)
        ensures
            r@ == match self.output {
                Some(o) => o.path@,
                None => "dist/output.component.wasm"@,
            },
    {
        match &self.output {
            Some(o) => o.path.clone(),
            None => "dist/output.component.wasm".to_owned(),
        }
    }
}

/// The instantiation block of one plugin in a fixed composition.
pub open spec fn spec_fixed_plugin(c: Command) -> Seq<char> {
    "let "@ + spec_cmd_var_name(c) + " = new "@ + spec_cmd_package_name(c)
        + " {\n  types: host.types,\n  host: host.host\n};\n\n"@
}

pub open spec fn spec_fixed_plugins(cmds: Seq<Command>) -> Seq<char>
    decreases cmds.len(),
{
    if cmds.len() == 0 {
        Seq::empty()
    } else {
        spec_fixed_plugins(cmds.drop_last()) + spec_fixed_plugin(cmds.last())
    }
}

pub open spec fn spec_fixed_registry_arg(c: Command) -> Seq<char> {
    ",\n  "@ + spec_cmd_var_name(c) + ": "@ + spec_cmd_var_name(c) + ".command"@
}

pub open spec fn spec_fixed_registry_args(cmds: Seq<Command>) -> Seq<char>
    decreases cmds.len(),
{
    if cmds.len() == 0 {
        Seq::empty()
    } else {
        spec_fixed_registry_args(cmds.drop_last()) + spec_fixed_registry_arg(cmds.last())
    }
}

/// The whole fixed composition source for a manifest.
pub open spec fn spec_generate_wac(m: Manifest) -> Seq<char> {
    "package "@ + m.package.name@ + ";\n\n"@
        + "// Host component (WASI bridge)\nlet host = new wacli-host { ... };\n\n"@
        + "// Command plugins\n"@ + spec_fixed_plugins(m.command@)
        + "// Registry (command dispatch)\nlet registry = new example:hello-registry {\n"@
        + "  types: host.types"@ + spec_fixed_registry_args(m.command@) + "\n};\n\n"@
        + "// Core (CLI router)\nlet core = new wacli-core {\n"@ + "  types: host.types,\n"@
        + "  host: host.host,\n"@ + "  registry: registry.registry\n};\n\n"@
        + "// Export the CLI entry point\nexport core.run;\n"@
}

/// Generate the fixed composition source for a manifest.
#[verifier::loop_isolation(false)]
pub fn generate_wac(manifest: &Manifest) -> (r: String)
    ensures
        r@ == spec_generate_wac(*manifest),
{
    let mut wac = String::new();
    wac.append("package ");
    wac.append(manifest.package.name.as_str());
    wac.append(";\n\n");
    wac.append("// Host component (WASI bridge)\nlet host = new wacli-host { ... };\n\n");
    wac.append("// Command plugins\n");
    let ghost base = wac@;
    let n = manifest.command.len();
    let mut i: usize = 0;
    proof {
        assert(manifest.command@.take(0) =~= Seq::<Command>::empty());
    }
    while i < n
        invariant
            0 <= i <= n,
            n == manifest.command@.len(),
            wac@ == base + spec_fixed_plugins(manifest.command@.take(i as int)),
        decreases n - i,
    {
        let cmd = &manifest.command[i];
        let var_name = cmd.var_name();
        let pkg_name = cmd.package_name();
        wac.append("let ");
        wac.append(var_name.as_str());
        wac.append(" = new ");
        wac.append(pkg_name.as_str());
        wac.append(" {\n  types: host.types,\n  host: host.host\n};\n\n");
        proof {
            assert(manifest.command@.take(i + 1).drop_last() =~= manifest.command@.take(i as int));
            assert(manifest.command@.take(i + 1).last() == manifest.command@[i as int]);
            assert(wac@ =~= base + spec_fixed_plugins(manifest.command@.take(i + 1)));
        }
        i = i + 1;
    }
    proof {
        assert(manifest.command@.take(n as int) =~= manifest.command@);
    }
    wac.append("// Registry (command dispatch)\nlet registry = new example:hello-registry {\n");
    wac.append("  types: host.types");
    let ghost mid = wac@;
    let mut k: usize = 0;
    proof {
        assert(manifest.command@.take(0) =~= Seq::<Command>::empty());
    }
    while k < n
        invariant
            0 <= k <= n,
            n == manifest.command@.len(),
            wac@ == mid + spec_fixed_registry_args(manifest.command@.take(k as int)),
        decreases n - k,
    {
        let cmd = &manifest.command[k];
        let var_name = cmd.var_name();
        wac.append(",\n  ");
        wac.append(var_name.as_str());
        wac.append(": ");
        wac.append(var_name.as_str());
        wac.append(".command");
        proof {
            assert(manifest.command@.take(k + 1).drop_last() =~= manifest.command@.take(k as int));
            assert(manifest.command@.take(k + 1).last() == manifest.command@[k as int]);
            assert(wac@ =~= mid + spec_fixed_registry_args(manifest.command@.take(k + 1)));
        }
        k = k + 1;
    }
    proof {
        assert(manifest.command@.take(n as int) =~= manifest.command@);
    }
    wac.append("\n};\n\n");
    wac.append("// Core (CLI router)\nlet core = new wacli-core {\n");
    wac.append("  types: host.types,\n");
    wac.append("  host: host.host,\n");
    wac.append("  registry: registry.registry\n};\n\n");
    wac.append("// Export the CLI entry point\nexport core.run;\n");
    proof {
        assert(wac@ =~= spec_generate_wac(*manifest));
    }
    wac
}

} // verus!
