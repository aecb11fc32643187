//! The interface-description sources: the shared type vocabulary, and the
//! synthesized per-build description declaring one sub-interface per
//! discovered command.

use vstd::prelude::*;
use crate::scan::CommandInfo;
use crate::text::{is_blank, push_char, starts_with, trim_is_empty, trim_start, trimmed,
    trimmed_end, trimmed_start, trim_end};

verus! {

pub const TYPES_WIT: &'static str = "package wacli:cli@2.0.0;\n\ninterface types {\n  type exit-code = u32;\n\n  record arg-def {\n    name: string,\n    short: option<string>,\n    long: option<string>,\n    help: string,\n    required: bool,\n    default-value: option<string>,\n    value-name: option<string>,\n    takes-value: bool,\n  }\n\n  record command-meta {\n    name: string,\n    summary: string,\n    usage: string,\n    aliases: list<string>,\n    version: string,\n    hidden: bool,\n    description: string,\n    examples: list<string>,\n    args: list<arg-def>,\n  }\n\n  variant command-error {\n    unknown-command(string),\n    invalid-args(string),\n    failed(string),\n    io(string),\n  }\n\n  type command-result = result<exit-code, command-error>;\n\n  record pipe-meta {\n    name: string,\n    summary: string,\n    input-types: list<string>,\n    output-type: string,\n    version: string,\n  }\n\n  variant pipe-error {\n    parse-error(string),\n    transform-error(string),\n    invalid-option(string),\n  }\n\n  record pipe-info {\n    name: string,\n    summary: string,\n    path: string,\n  }\n}\n";

pub const HOST_ENV_WIT: &'static str = "package wacli:cli@2.0.0;\n\ninterface host-env {\n  args: func() -> list<string>;\n  env: func() -> list<tuple<string, string>>;\n}\n";

pub const HOST_IO_WIT: &'static str = "package wacli:cli@2.0.0;\n\ninterface host-io {\n  stdout-write: func(bytes: list<u8>);\n  stderr-write: func(bytes: list<u8>);\n  stdout-flush: func();\n  stderr-flush: func();\n}\n";

pub const HOST_FS_WIT: &'static str = "package wacli:cli@2.0.0;\n\ninterface host-fs {\n  read-file: func(path: string) -> result<list<u8>, string>;\n  write-file: func(path: string, contents: list<u8>) -> result<_, string>;\n  create-dir: func(path: string) -> result<_, string>;\n  list-dir: func(path: string) -> result<list<string>, string>;\n}\n";

pub const HOST_PROCESS_WIT: &'static str = "package wacli:cli@2.0.0;\n\ninterface host-process {\n  use types.{exit-code};\n\n  exit: func(code: exit-code);\n}\n";

pub const SCHEMA_WIT: &'static str = "package wacli:cli@2.0.0;\n\ninterface schema {\n  record arg-schema {\n    name: string,\n    short: option<string>,\n    long: option<string>,\n    help: string,\n    required: bool,\n    default-value: option<string>,\n    env: option<string>,\n    value-name: option<string>,\n    takes-value: bool,\n    multiple: bool,\n    value-type: option<string>,\n    possible-values: list<string>,\n    conflicts-with: list<string>,\n    requires: list<string>,\n    hidden: bool,\n  }\n\n  record command-schema {\n    name: string,\n    summary: string,\n    usage: string,\n    aliases: list<string>,\n    version: string,\n    hidden: bool,\n    description: string,\n    examples: list<string>,\n    args: list<arg-schema>,\n  }\n}\n";

pub const REGISTRY_SCHEMA_WIT: &'static str = "package wacli:cli@2.0.0;\n\ninterface registry-schema {\n  use schema.{command-schema};\n\n  record app-meta {\n    name: string,\n    version: string,\n    description: string,\n  }\n\n  get-app-meta: func() -> app-meta;\n\n  list-schemas: func() -> list<command-schema>;\n}\n";

pub const REGISTRY_WIT: &'static str = "package wacli:cli@2.0.0;\n\ninterface registry {\n  use types.{command-meta, command-result};\n\n  list-commands: func() -> list<command-meta>;\n  run: func(name: string, argv: list<string>) -> command-result;\n}\n\nworld registry-provider {\n  export registry;\n}\n";

/// Position of the first line break, if any.
pub open spec fn find_nl(s: Seq<char>) -> Option<int>
    decreases s.len(),
{
    if s.len() == 0 {
        None
    } else if s[0] == '\n' {
        Some(0int)
    } else {
        match find_nl(s.drop_first()) {
            Some(i) => Some(i + 1),
            None => None,
        }
    }
}

/// A found line break lies inside the text.
pub proof fn lemma_find_nl_range(s: Seq<char>)
    ensures
        find_nl(s) is Some ==> 0 <= find_nl(s)->Some_0 < s.len(),
    decreases s.len(),
{
    if s.len() > 0 && s[0] != '\n' {
        lemma_find_nl_range(s.drop_first());
    }
}

/// The lines of a text: split at line breaks, with no final empty line for a
/// trailing break.
pub open spec fn split_lines(s: Seq<char>) -> Seq<Seq<char>>
    decreases s.len(),
    via split_lines_dec
{
    if s.len() == 0 {
        Seq::empty()
    } else {
        match find_nl(s) {
            None => seq![s],
            Some(i) => seq![s.take(i)] + split_lines(s.skip(i + 1)),
        }
    }
}

#[via_fn]
proof fn split_lines_dec(s: Seq<char>) {
    lemma_find_nl_range(s);
}

/// Whether a line declares the package, after leading blanks.
pub open spec fn is_package_line(line: Seq<char>) -> bool {
    "package "@.is_prefix_of(trimmed_start(line))
}

/// The lines left after dropping one leading package declaration and the
/// blank lines that follow it; from the first other line on, everything is
/// kept.
pub open spec fn skip_header(lines: Seq<Seq<char>>, saw_package: bool) -> Seq<Seq<char>>
    decreases lines.len(),
{
    if lines.len() == 0 {
        Seq::empty()
    } else if !saw_package && is_package_line(lines[0]) {
        skip_header(lines.drop_first(), true)
    } else if saw_package && trimmed(lines[0]).len() == 0 {
        skip_header(lines.drop_first(), true)
    } else {
        lines
    }
}

/// Lines joined back into text, each with a closing line break.
pub open spec fn join_lines(lines: Seq<Seq<char>>) -> Seq<char>
    decreases lines.len(),
{
    if lines.len() == 0 {
        Seq::empty()
    } else {
        join_lines(lines.drop_last()) + lines.last() + "\n"@
    }
}

/// A source with its package declaration and the blank lines after it
/// removed, every remaining line closed by a line break.
pub open spec fn spec_stripped(s: Seq<char>) -> Seq<char> {
    join_lines(skip_header(split_lines(s), false))
}

proof fn lemma_find_nl_at(s: Seq<char>, i: int)
    requires
        0 <= i < s.len(),
        s[i] == '\n',
        forall|j: int| 0 <= j < i ==> s[j] != '\n',
    ensures
        find_nl(s) == Some(i),
    decreases i,
{
    if i > 0 {
        assert(s.drop_first() =~= s.skip(1));
        assert forall|j: int| 0 <= j < i - 1 implies s.skip(1)[j] != '\n' by {
            assert(s.skip(1)[j] == s[j + 1]);
        }
        assert(s.skip(1)[i - 1] == s[i]);
        lemma_find_nl_at(s.skip(1), i - 1);
    }
}

proof fn lemma_find_nl_none(s: Seq<char>)
    requires
        forall|j: int| 0 <= j < s.len() ==> s[j] != '\n',
    ensures
        find_nl(s) is None,
    decreases s.len(),
{
    if s.len() > 0 {
        assert(s.drop_first() =~= s.skip(1));
        assert forall|j: int| 0 <= j < s.skip(1).len() implies s.skip(1)[j] != '\n' by {
            assert(s.skip(1)[j] == s[j + 1]);
        }
        lemma_find_nl_none(s.skip(1));
    }
}

/// Split a text into its lines.
#[verifier::loop_isolation(false)]
pub fn split_lines_vec(s: &str) -> (r: Vec<String>)
    ensures
        r.deep_view() == split_lines(s@),
{
    let mut out: Vec<String> = Vec::new();
    let n = s.unicode_len();
    let mut pos: usize = 0;
    proof {
        assert(out.deep_view() =~= Seq::<Seq<char>>::empty());
        assert(s@.skip(0) =~= s@);
        assert(split_lines(s@) =~= out.deep_view() + split_lines(s@.skip(0)));
    }
    while pos < n
        invariant
            0 <= pos <= n,
            split_lines(s@) == out.deep_view() + split_lines(s@.skip(pos as int)),
        decreases n - pos,
    {
        let ghost rest = s@.skip(pos as int);
        let mut j: usize = pos;
        while j < n && s.get_char(j) != '\n'
            invariant
                pos <= j <= n,
                forall|k: int| pos <= k < j ==> s@[k] != '\n',
            decreases n - j,
        {
            j = j + 1;
        }
        let line = s.substring_char(pos, j).to_owned();
        let ghost pre = out.deep_view();
        out.push(line);
        proof {
            assert(out.deep_view() =~= pre.push(s@.subrange(pos as int, j as int)));
            assert forall|k: int| 0 <= k < j - pos implies rest[k] != '\n' by {
                assert(rest[k] == s@[pos + k]);
            }
        }
        if j < n {
            proof {
                assert(rest[j - pos] == s@[j as int]);
                lemma_find_nl_at(rest, j - pos);
                assert(rest.take(j - pos) =~= s@.subrange(pos as int, j as int));
                assert(rest.skip(j - pos + 1) =~= s@.skip(j + 1));
                assert(seq![rest.take(j - pos)] + split_lines(rest.skip(j - pos + 1))
                    =~= split_lines(rest));
                assert(out.deep_view() + split_lines(s@.skip(j + 1)) =~= pre + split_lines(
                    rest,
                ));
            }
            pos = j + 1;
        } else {
            proof {
                lemma_find_nl_none(rest);
                assert(rest =~= s@.subrange(pos as int, j as int));
                assert(split_lines(rest) =~= seq![rest]);
                assert(s@.skip(n as int) =~= Seq::<char>::empty());
                assert(out.deep_view() + split_lines(s@.skip(n as int)) =~= pre + split_lines(
                    rest,
                ));
            }
            pos = n;
        }
    }
    proof {
        assert(s@.skip(n as int) =~= Seq::<char>::empty());
        assert(out.deep_view() =~= out.deep_view() + split_lines(s@.skip(n as int)));
    }
    out
}

/// Append a source with its package declaration removed, as `spec_stripped`
/// describes.
#[verifier::loop_isolation(false)]
pub fn append_without_package(dst: &mut String, wit: &str)
    ensures
        final(dst)@ == old(dst)@ + spec_stripped(wit@),
{
    let lines = split_lines_vec(wit);
    let ghost lv = split_lines(wit@);
    let n = lines.len();
    let mut i: usize = 0;
    let mut saw_package: bool = false;
    let mut started: bool = false;
    proof {
        assert(lv.skip(0) =~= lv);
    }
    while i < n && !started
        invariant
            0 <= i <= n,
            n == lv.len(),
            lines.deep_view() == lv,
            skip_header(lv, false) == skip_header(lv.skip(i as int), saw_package),
            started ==> skip_header(lv.skip(i as int), saw_package) == lv.skip(i as int),
        decreases n - i + (if started { 0int } else { 1int }),
    {
        let line = &lines[i];
        proof {
            assert(lv.skip(i as int)[0] == lv[i as int]);
            assert(lv[i as int] == line@);
            assert(lv.skip(i as int).drop_first() =~= lv.skip(i + 1));
        }
        if !saw_package && starts_with(trim_start(line.as_str()), "package ") {
            saw_package = true;
            i = i + 1;
        } else if saw_package && trim_is_empty(line.as_str()) {
            i = i + 1;
        } else {
            started = true;
        }
    }
    // From here every remaining line is copied, each closed by a line break.
    let ghost kept = lv.skip(i as int);
    proof {
        if !started {
            assert(lv.skip(n as int) =~= Seq::<Seq<char>>::empty());
        }
        assert(skip_header(lv, false) == kept);
        assert(kept.take(0) =~= Seq::<Seq<char>>::empty());
    }
    let start = i;
    let mut m: usize = start;
    while m < n
        invariant
            start <= m <= n,
            n == lv.len(),
            lines.deep_view() == lv,
            kept == lv.skip(start as int),
            dst@ == old(dst)@ + join_lines(kept.take(m - start)),
        decreases n - m,
    {
        dst.append(lines[m].as_str());
        dst.append("\n");
        proof {
            let t = m + 1 - start;
            assert(kept.take(t).drop_last() =~= kept.take(m - start));
            assert(kept.take(t).last() == kept[m - start]);
            assert(kept[m - start] == lv[m as int]);
            assert(dst@ =~= old(dst)@ + join_lines(kept.take(t)));
        }
        m = m + 1;
    }
    proof {
        assert(kept.take(n - start) =~= kept);
    }
}

/// The shared vocabulary every synthesized description opens with: the type
/// package, then each host and schema interface with its package declaration
/// removed, separated by blank lines.
pub open spec fn spec_wit_base() -> Seq<char> {
    trimmed_end(TYPES_WIT@) + "\n\n"@ + spec_stripped(HOST_ENV_WIT@) + "\n\n"@ + spec_stripped(
        HOST_IO_WIT@,
    ) + "\n\n"@ + spec_stripped(HOST_FS_WIT@) + "\n\n"@ + spec_stripped(HOST_PROCESS_WIT@)
        + "\n\n"@ + spec_stripped(SCHEMA_WIT@) + "\n\n"@ + spec_stripped(REGISTRY_SCHEMA_WIT@)
        + "\n\n"@ + spec_stripped(REGISTRY_WIT@) + "\n\n"@
}

#[verifier::rlimit(100)]
fn append_wit_base(dst: &mut String)
    ensures
        final(dst)@ == old(dst)@ + spec_wit_base(),
{
    let trimmed_types = trim_end(TYPES_WIT);
    dst.append(trimmed_types);
    dst.append("\n\n");
    append_without_package(dst, HOST_ENV_WIT);
    dst.append("\n\n");
    append_without_package(dst, HOST_IO_WIT);
    dst.append("\n\n");
    append_without_package(dst, HOST_FS_WIT);
    dst.append("\n\n");
    append_without_package(dst, HOST_PROCESS_WIT);
    dst.append("\n\n");
    append_without_package(dst, SCHEMA_WIT);
    dst.append("\n\n");
    append_without_package(dst, REGISTRY_SCHEMA_WIT);
    dst.append("\n\n");
    append_without_package(dst, REGISTRY_WIT);
    dst.append("\n\n");
    proof {
        assert(dst@ =~= old(dst)@ + spec_wit_base());
    }
}

/// The sub-interface declared for one command: a `meta` entry returning the
/// command metadata and a `run` entry taking the argument list.
pub open spec fn spec_cmd_interface(name: Seq<char>) -> Seq<char> {
    "interface "@ + name + "-command {\n"@
        + "  use types.{command-meta, command-result};\n"@
        + "  meta: func() -> command-meta;\n"@
        + "  run: func(argv: list<string>) -> command-result;\n"@ + "}\n\n"@
}

pub open spec fn spec_cmd_interfaces(cmds: Seq<CommandInfo>) -> Seq<char>
    decreases cmds.len(),
{
    if cmds.len() == 0 {
        Seq::empty()
    } else {
        spec_cmd_interfaces(cmds.drop_last()) + spec_cmd_interface(cmds.last().name@)
    }
}

pub open spec fn spec_cmd_import(name: Seq<char>) -> Seq<char> {
    "  import "@ + name + "-command;\n"@
}

pub open spec fn spec_cmd_imports(cmds: Seq<CommandInfo>) -> Seq<char>
    decreases cmds.len(),
{
    if cmds.len() == 0 {
        Seq::empty()
    } else {
        spec_cmd_imports(cmds.drop_last()) + spec_cmd_import(cmds.last().name@)
    }
}

/// The whole synthesized interface description: the shared vocabulary, one
/// sub-interface per command, and a world importing each command and
/// exporting the registry interfaces.
pub open spec fn spec_dynamic_wit(cmds: Seq<CommandInfo>) -> Seq<char> {
    spec_wit_base() + spec_cmd_interfaces(cmds) + "world dynamic-registry {\n"@
        + spec_cmd_imports(cmds) + "  export registry;\n"@ + "  export registry-schema;\n"@
        + "}\n"@
}

/// Synthesize the per-build interface description.
#[verifier::loop_isolation(false)]
#[verifier::rlimit(100)]
pub fn generate_dynamic_wit(commands: &Vec<CommandInfo>) -> (r: String)
    ensures
        r@ == spec_dynamic_wit(commands@),
{
    let mut wit = String::new();
    append_wit_base(&mut wit);
    let ghost base = wit@;
    let n = commands.len();
    let mut i: usize = 0;
    proof {
        assert(commands@.take(0) =~= Seq::<CommandInfo>::empty());
    }
    while i < n
        invariant
            0 <= i <= n,
            wit@ == base + spec_cmd_interfaces(commands@.take(i as int)),
        decreases n - i,
    {
        wit.append("interface ");
        wit.append(commands[i].name.as_str());
        wit.append("-command {\n");
        wit.append("  use types.{command-meta, command-result};\n");
        wit.append("  meta: func() -> command-meta;\n");
        wit.append("  run: func(argv: list<string>) -> command-result;\n");
        wit.append("}\n\n");
        proof {
            assert(commands@.take(i + 1).drop_last() =~= commands@.take(i as int));
            assert(commands@.take(i + 1).last() == commands@[i as int]);
            assert(wit@ =~= base + spec_cmd_interfaces(commands@.take(i + 1)));
        }
        i = i + 1;
    }
    proof {
        assert(commands@.take(n as int) =~= commands@);
    }
    wit.append("world dynamic-registry {\n");
    let ghost mid = wit@;
    let mut j: usize = 0;
    proof {
        assert(commands@.take(0) =~= Seq::<CommandInfo>::empty());
    }
    while j < n
        invariant
            0 <= j <= n,
            wit@ == mid + spec_cmd_imports(commands@.take(j as int)),
        decreases n - j,
    {
        wit.append("  import ");
        wit.append(commands[j].name.as_str());
        wit.append("-command;\n");
        proof {
            assert(commands@.take(j + 1).drop_last() =~= commands@.take(j as int));
            assert(commands@.take(j + 1).last() == commands@[j as int]);
            assert(wit@ =~= mid + spec_cmd_imports(commands@.take(j + 1)));
        }
        j = j + 1;
    }
    proof {
        assert(commands@.take(n as int) =~= commands@);
    }
    wit.append("  export registry;\n");
    wit.append("  export registry-schema;\n");
    wit.append("}\n");
    proof {
        assert(wit@ =~= spec_dynamic_wit(commands@));
    }
    wit
}

} // verus!
