//! Composition-source generation: the wiring text that instantiates the
//! host bridge, every command plugin, the generated registry, and the
//! router, and exports the entry point.

use vstd::prelude::*;
use crate::scan::{dashes_to_underscores, spec_import_name, spec_package_name, CommandInfo};

verus! {

/// The instantiation block of one command plugin: its host imports wired to
/// the host instance, everything else passed through.
pub open spec fn spec_wac_plugin(c: CommandInfo) -> Seq<char> {
    let imports = c.imports.deep_view();
    "let "@ + dashes_to_underscores(c.name@) + " = new "@ + spec_package_name(c.name@) + " {\n  \""@
        + spec_import_name(imports, "types"@) + "\": host.types,\n  \""@ + spec_import_name(
        imports,
        "host-env"@,
    ) + "\": host.host-env,\n  \""@ + spec_import_name(imports, "host-io"@)
        + "\": host.host-io,\n  \""@ + spec_import_name(imports, "host-fs"@)
        + "\": host.host-fs,\n  \""@ + spec_import_name(imports, "host-process"@)
        + "\": host.host-process,\n  \""@ + spec_import_name(imports, "host-pipes"@)
        + "\": host.host-pipes,\n  ...\n};\n\n"@
}

pub open spec fn spec_wac_plugins(cmds: Seq<CommandInfo>) -> Seq<char>
    decreases cmds.len(),
{
    if cmds.len() == 0 {
        Seq::empty()
    } else {
        spec_wac_plugins(cmds.drop_last()) + spec_wac_plugin(cmds.last())
    }
}

/// The registry wiring of one command: its exported command interface under
/// its own sub-interface name.
pub open spec fn spec_wac_registry_arg(c: CommandInfo) -> Seq<char> {
    ",\n  "@ + c.name@ + "-command: "@ + dashes_to_underscores(c.name@) + ".command"@
}

pub open spec fn spec_wac_registry_args(cmds: Seq<CommandInfo>) -> Seq<char>
    decreases cmds.len(),
{
    if cmds.len() == 0 {
        Seq::empty()
    } else {
        spec_wac_registry_args(cmds.drop_last()) + spec_wac_registry_arg(cmds.last())
    }
}

/// The whole composition source: the package declaration, the host bridge,
/// one plugin instantiation per command, the registry wired to every
/// command, the router wired to host and registry, and the exported entry
/// point.
pub open spec fn spec_generate_wac(package_name: Seq<char>, cmds: Seq<CommandInfo>) -> Seq<char> {
    "package "@ + package_name + ";\n\n"@
        + "// Host component (WASI bridge)\nlet host = new wacli:host { ... };\n\n"@ + (
    if cmds.len() == 0 {
        Seq::<char>::empty()
    } else {
        "// Command plugins\n"@ + spec_wac_plugins(cmds)
    }) + "// Registry (command dispatch)\nlet registry = new wacli:registry {\n"@
        + "  \"wacli:cli/types@1.0.0\": host.types"@ + spec_wac_registry_args(cmds) + "\n};\n\n"@
        + "// Core (CLI router)\nlet core = new wacli:core {\n"@
        + "  \"wacli:cli/types@1.0.0\": host.types,\n"@
        + "  \"wacli:cli/host-env@1.0.0\": host.host-env,\n"@
        + "  \"wacli:cli/host-io@1.0.0\": host.host-io,\n"@
        + "  \"wacli:cli/host-process@1.0.0\": host.host-process,\n"@
        + "  \"wacli:cli/registry@1.0.0\": registry.registry\n};\n\n"@
        + "// Export the CLI entry point\nexport core.run;\n"@
}

/// Generate the composition source for the discovered commands.
#[verifier::loop_isolation(false)]
#[verifier::rlimit(60)]
pub fn generate_wac(package_name: &str, commands: &Vec<CommandInfo>) -> (r: String)
    ensures
        r@ == spec_generate_wac(package_name@, commands@),
{
    let mut wac = String::new();
    wac.append("package ");
    wac.append(package_name);
    wac.append(";\n\n");
    wac.append("// Host component (WASI bridge)\nlet host = new wacli:host { ... };\n\n");
    let n = commands.len();
    if n > 0 {
        wac.append("// Command plugins\n");
        let ghost base = wac@;
        let mut i: usize = 0;
        proof {
            assert(commands@.take(0) =~= Seq::<CommandInfo>::empty());
        }
        while i < n
            invariant
                0 <= i <= n,
                wac@ == base + spec_wac_plugins(commands@.take(i as int)),
            decreases n - i,
        {
            let cmd = &commands[i];
            let var_name = cmd.var_name();
            let pkg_name = cmd.package_name();
            wac.append("let ");
            wac.append(var_name.as_str());
            wac.append(" = new ");
            wac.append(pkg_name.as_str());
            wac.append(" {\n  \"");
            let types_i = cmd.import_name("types");
            wac.append(types_i.as_str());
            wac.append("\": host.types,\n  \"");
            let env_i = cmd.import_name("host-env");
            wac.append(env_i.as_str());
            wac.append("\": host.host-env,\n  \"");
            let io_i = cmd.import_name("host-io");
            wac.append(io_i.as_str());
            wac.append("\": host.host-io,\n  \"");
            let fs_i = cmd.import_name("host-fs");
            wac.append(fs_i.as_str());
            wac.append("\": host.host-fs,\n  \"");
            let proc_i = cmd.import_name("host-process");
            wac.append(proc_i.as_str());
            wac.append("\": host.host-process,\n  \"");
            let pipes_i = cmd.import_name("host-pipes");
            wac.append(pipes_i.as_str());
            wac.append("\": host.host-pipes,\n  ...\n};\n\n");
            proof {
                assert(commands@.take(i + 1).drop_last() =~= commands@.take(i as int));
                assert(commands@.take(i + 1).last() == commands@[i as int]);
                assert(wac@ =~= base + spec_wac_plugins(commands@.take(i + 1)));
            }
            i = i + 1;
        }
        proof {
            assert(commands@.take(n as int) =~= commands@);
        }
    }
    wac.append("// Registry (command dispatch)\nlet registry = new wacli:registry {\n");
    wac.append("  \"wacli:cli/types@1.0.0\": host.types");
    let ghost mid = wac@;
    let mut k: usize = 0;
    proof {
        assert(commands@.take(0) =~= Seq::<CommandInfo>::empty());
    }
    while k < n
        invariant
            0 <= k <= n,
            n == commands@.len(),
            wac@ == mid + spec_wac_registry_args(commands@.take(k as int)),
        decreases n - k,
    {
        let cmd = &commands[k];
        let var_name = cmd.var_name();
        wac.append(",\n  ");
        wac.append(cmd.name.as_str());
        wac.append("-command: ");
        wac.append(var_name.as_str());
        wac.append(".command");
        proof {
            assert(commands@.take(k + 1).drop_last() =~= commands@.take(k as int));
            assert(commands@.take(k + 1).last() == commands@[k as int]);
            assert(wac@ =~= mid + spec_wac_registry_args(commands@.take(k + 1)));
        }
        k = k + 1;
    }
    proof {
        assert(commands@.take(n as int) =~= commands@);
    }
    wac.append("\n};\n\n");
    wac.append("// Core (CLI router)\nlet core = new wacli:core {\n");
    wac.append("  \"wacli:cli/types@1.0.0\": host.types,\n");
    wac.append("  \"wacli:cli/host-env@1.0.0\": host.host-env,\n");
    wac.append("  \"wacli:cli/host-io@1.0.0\": host.host-io,\n");
    wac.append("  \"wacli:cli/host-process@1.0.0\": host.host-process,\n");
    wac.append("  \"wacli:cli/registry@1.0.0\": registry.registry\n};\n\n");
    wac.append("// Export the CLI entry point\nexport core.run;\n");
    proof {
        assert(wac@ =~= spec_generate_wac(package_name@, commands@));
    }
    wac
}

} // verus!
