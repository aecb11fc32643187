//! The router's decisions and messages: splitting the invocation, resolving
//! a command schema, and the fixed lines the host prints. The host performs
//! the reads, writes and exits around these.

use vstd::prelude::*;
use crate::bodies::AppMeta;
use crate::cdk::CommandError;
use crate::metadata::CommandSchema;
use crate::text::{char_rindex, rfind_char, str_eq, trim, trim_end, trim_is_empty, trimmed,
    trimmed_end};

verus! {

use crate::argparse::args::contains_name;

/// Split the raw invocation into the program name and the arguments; an
/// empty invocation yields an empty program name.
pub fn split_program_and_argv(args: Vec<String>) -> (r: (String, Vec<String>))
    ensures
        args@.len() == 0 ==> r.0@ == Seq::<char>::empty() && r.1@.len() == 0,
        args@.len() > 0 ==> r.0 == args@[0] && r.1@ == args@.skip(1),
{
    let mut rest = args;
    if rest.len() == 0 {
        return (String::new(), rest);
    }
    let ghost input = rest@;
    let program = rest.remove(0);
    proof {
        assert(rest@ =~= input.skip(1));
    }
    (program, rest)
}

/// The display name of a program path: the part after the last separator,
/// or the whole path when that part is empty.
pub open spec fn spec_display_name(program: Seq<char>) -> Seq<char> {
    match char_rindex(program, '/') {
        Some(i) => {
            if i + 1 < program.len() {
                program.skip(i + 1)
            } else {
                program
            }
        },
        None => program,
    }
}

/// Reduce a program path to its display name.
pub fn program_display_name(program: &str) -> (r: &str)
    ensures
        r@ == spec_display_name(program@),
{
    let n = program.unicode_len();
    match rfind_char(program, '/') {
        Some(i) => {
            if i + 1 < n {
                let r = program.substring_char(i + 1, n);
                proof {
                    assert(r@ =~= program@.skip(i + 1));
                }
                r
            } else {
                program
            }
        },
        None => program,
    }
}

/// The index of the schema a raw invocation selects: the first whose
/// canonical name equals it, else the first whose aliases contain it.
pub open spec fn spec_find_schema(schemas: Seq<CommandSchema>, raw: Seq<char>) -> Option<int> {
    if exists|i: int| 0 <= i < schemas.len() && (#[trigger] schemas[i]).name@ == raw {
        Some(
            choose|i: int|
                0 <= i < schemas.len() && (#[trigger] schemas[i]).name@ == raw && forall|j: int|
                    0 <= j < i ==> (#[trigger] schemas[j]).name@ != raw,
        )
    } else if exists|i: int|
        0 <= i < schemas.len() && (#[trigger] schemas[i]).aliases.deep_view().contains(raw) {
        Some(
            choose|i: int|
                0 <= i < schemas.len() && (#[trigger] schemas[i]).aliases.deep_view().contains(
                    raw,
                ) && forall|j: int|
                    0 <= j < i ==> !(#[trigger] schemas[j]).aliases.deep_view().contains(raw),
        )
    } else {
        None
    }
}

/// Find the schema a raw invocation selects: canonical names win over
/// aliases across the whole list.
#[verifier::loop_isolation(false)]
pub fn find_command_schema<'a>(schemas: &'a Vec<CommandSchema>, raw: &str) -> (r: Option<
    &'a CommandSchema,
>)
    ensures
        match r {
            Some(s) => spec_find_schema(schemas@, raw@) is Some && *s == schemas@[
                spec_find_schema(schemas@, raw@)->Some_0
            ],
            None => spec_find_schema(schemas@, raw@) is None,
        },
{
    let n = schemas.len();
    let mut i: usize = 0;
    while i < n
        invariant
            0 <= i <= n,
            forall|j: int| 0 <= j < i ==> (#[trigger] schemas@[j]).name@ != raw@,
        decreases n - i,
    {
        if str_eq(schemas[i].name.as_str(), raw) {
            proof {
                let w = choose|w: int|
                    0 <= w < schemas@.len() && (#[trigger] schemas@[w]).name@ == raw@ && forall|
                        j: int,
                    | 0 <= j < w ==> (#[trigger] schemas@[j]).name@ != raw@;
                assert(w == i as int) by {
                    if w < i {
                        assert(schemas@[w].name@ != raw@);
                    } else if w > i {
                        assert(schemas@[i as int].name@ != raw@);
                    }
                }
            }
            return Some(&schemas[i]);
        }
        i = i + 1;
    }
    let mut k: usize = 0;
    while k < n
        invariant
            0 <= k <= n,
            forall|j: int| 0 <= j < n ==> (#[trigger] schemas@[j]).name@ != raw@,
            forall|j: int|
                0 <= j < k ==> !(#[trigger] schemas@[j]).aliases.deep_view().contains(raw@),
        decreases n - k,
    {
        if contains_name(&schemas[k].aliases, raw) {
            proof {
                if exists|i: int| 0 <= i < schemas@.len() && (#[trigger] schemas@[i]).name@
                    == raw@ {
                    let i = choose|i: int|
                        0 <= i < schemas@.len() && (#[trigger] schemas@[i]).name@ == raw@;
                    assert(schemas@[i].name@ != raw@);
                }
                let w = choose|w: int|
                    0 <= w < schemas@.len() && (#[trigger] schemas@[w]).aliases.deep_view().contains(raw@)
                        && forall|j: int|
                        0 <= j < w ==> !(#[trigger] schemas@[j]).aliases.deep_view().contains(
                            raw@,
                        );
                assert(w == k as int) by {
                    if w < k {
                        assert(!schemas@[w].aliases.deep_view().contains(raw@));
                    } else if w > k {
                        assert(!schemas@[k as int].aliases.deep_view().contains(raw@));
                    }
                }
            }
            return Some(&schemas[k]);
        }
        k = k + 1;
    }
    proof {
        if exists|i: int| 0 <= i < schemas@.len() && (#[trigger] schemas@[i]).name@ == raw@ {
            let i = choose|i: int|
                0 <= i < schemas@.len() && (#[trigger] schemas@[i]).name@ == raw@;
            assert(schemas@[i].name@ != raw@);
        }
        if exists|i: int|
            0 <= i < schemas@.len() && (#[trigger] schemas@[i]).aliases.deep_view().contains(raw@) {
            let i = choose|i: int|
                0 <= i < schemas@.len() && (#[trigger] schemas@[i]).aliases.deep_view().contains(
                    raw@,
                );
            assert(!schemas@[i].aliases.deep_view().contains(raw@));
        }
    }
    None
}

/// The global version line: the application name (or, when it is blank, the
/// program's display name), a space, the declared version (or, when that is
/// blank, the supplied fallback), and a line break.
pub open spec fn spec_version_line(
    program: Seq<char>,
    app: AppMeta,
    fallback: Seq<char>,
) -> Seq<char> {
    let name = if trimmed(app.name@).len() == 0 {
        spec_display_name(program)
    } else {
        trimmed(app.name@)
    };
    let version = if trimmed(app.version@).len() == 0 {
        fallback
    } else {
        trimmed(app.version@)
    };
    name + " "@ + version + "\n"@
}

/// Render the global version line.
pub fn global_version_line(program: &str, app: &AppMeta, fallback: &str) -> (r: String)
    ensures
        r@ == spec_version_line(program@, *app, fallback@),
{
    let mut out = String::new();
    if trim_is_empty(app.name.as_str()) {
        out.append(program_display_name(program));
    } else {
        out.append(trim(app.name.as_str()));
    }
    out.append(" ");
    if trim_is_empty(app.version.as_str()) {
        out.append(fallback);
    } else {
        out.append(trim(app.version.as_str()));
    }
    out.append("\n");
    proof {
        assert(out@ =~= spec_version_line(program@, *app, fallback@));
    }
    out
}

/// Render the internal-error line.
pub fn internal_error_line(msg: &str) -> (r: String)
    ensures
        r@ == "Internal error: "@ + trimmed_end(msg@) + "\n"@,
{
    let mut out: String = "Internal error: ".to_owned();
    out.append(trim_end(msg));
    out.append("\n");
    out
}

/// Render the unknown-command line.
pub fn unknown_command_line(name: &str) -> (r: String)
    ensures
        r@ == "Unknown command: "@ + name@ + "\n"@,
{
    let mut out: String = "Unknown command: ".to_owned();
    out.append(name);
    out.append("\n");
    out
}

/// The message of a failed command run, as reported to the caller: the
/// unknown-command variant names the command, every other variant carries
/// its own message; a hint to the help flag closes the report.
pub open spec fn spec_error_report(err: CommandError) -> Seq<char> {
    let first = match err {
        CommandError::UnknownCommand(cmd) => "Unknown command: "@ + cmd@ + "\n"@,
        CommandError::InvalidArgs(msg) => msg@ + "\n"@,
        CommandError::Failed(msg) => msg@ + "\n"@,
        CommandError::Io(msg) => msg@ + "\n"@,
    };
    first + "Run with --help to see available commands.\n"@
}

/// Render the report of a failed command run.
pub fn command_error_report(err: &CommandError) -> (r: String)
    ensures
        r@ == spec_error_report(*err),
{
    let mut out = String::new();
    match err {
        CommandError::UnknownCommand(cmd) => {
            out.append("Unknown command: ");
            out.append(cmd.as_str());
            out.append("\n");
        },
        CommandError::InvalidArgs(msg) => {
            out.append(msg.as_str());
            out.append("\n");
        },
        CommandError::Failed(msg) => {
            out.append(msg.as_str());
            out.append("\n");
        },
        CommandError::Io(msg) => {
            out.append(msg.as_str());
            out.append("\n");
        },
    }
    out.append("Run with --help to see available commands.\n");
    proof {
        assert(out@ =~= spec_error_report(*err));
    }
    out
}

/// Render the invalid-arguments report: the message, a blank line, and the
/// command's help text.
pub fn invalid_args_report(msg: &str, schema: &CommandSchema) -> String {
    let mut out: String = trim_end(msg).to_owned();
    out.append("\n");
    out.append("\n");
    let help_text = crate::argparse::claplike::help(schema);
    out.append(help_text.as_str());
    out
}

} // verus!
