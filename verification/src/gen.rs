//! The registry compiler pipeline: one pass interning every descriptor
//! string, the module-text assembly from the emitted bodies, and the wrap of
//! the parsed module into a component carrying the synthesized interface
//! metadata.

use vstd::prelude::*;
use crate::bodies::{build_app_meta_body, build_list_commands_body, build_list_schemas_body,
    build_run_body, commands_fit, spec_app_meta_body, spec_list_commands_body,
    spec_list_schemas_body, spec_run_body, AppMeta, CMD_RECORD_SIZE, IMM_LIMIT,
    META_ARG_RECORD_SIZE, SCHEMA_ARG_RECORD_SIZE};
use crate::emit::{apply_template, render_instrs, spec_apply_template, spec_render};
use crate::metadata::{ArgDef, ArgSchema};
use crate::scan::{command_ident, spec_command_ident, CommandInfo};
use crate::strtab::{empty_table_model, spec_intern, str_bytes, StringTable, TableModel, table_wf};
use crate::text::{char_index, dec_u32, find_char, push_byte_escape, spec_byte_escape, spec_dec,
    starts_with, trim, trim_start, trimmed};
use crate::wittext::{generate_dynamic_wit, is_package_line, spec_dynamic_wit, split_lines,
    split_lines_vec, REGISTRY_WIT};

verus! {

use vstd::string::StringSliceAdditionalSpecFns;

/// Round `value` up to a multiple of `align`; an alignment of zero leaves
/// the value unchanged.
pub open spec fn spec_align_up(value: int, align: int) -> int {
    if align == 0 {
        value
    } else if value % align == 0 {
        value
    } else {
        value + (align - value % align)
    }
}

/// Round a size up to an alignment boundary.
pub fn align_up(value: u32, align: u32) -> (r: u32)
    requires
        value + align <= u32::MAX,
    ensures
        r == spec_align_up(value as int, align as int),
{
    if align == 0 {
        return value;
    }
    let rem = value % align;
    if rem == 0 {
        value
    } else {
        value + (align - rem)
    }
}

/// Where the bump allocator starts: the string table size rounded to a word
/// boundary, plus fixed slack.
pub open spec fn spec_heap_start(data_len: int) -> int {
    spec_align_up(data_len, 4) + 1024
}

/// Compute the heap-start constant for a string table of the given size.
pub fn compute_heap_start(data_len: usize) -> (r: u32)
    requires
        data_len + 1028 <= u32::MAX,
    ensures
        r == spec_heap_start(data_len as int),
{
    let aligned = align_up(data_len as u32, 4);
    aligned + 1024
}

/// The escaped data initializer of the string table blob.
pub open spec fn spec_escape_bytes(bytes: Seq<u8>) -> Seq<char>
    decreases bytes.len(),
{
    if bytes.len() == 0 {
        Seq::empty()
    } else {
        spec_escape_bytes(bytes.drop_last()) + spec_byte_escape(bytes.last())
    }
}

/// Render the string table blob as an escaped data initializer.
#[verifier::loop_isolation(false)]
pub fn escape_bytes(bytes: &Vec<u8>) -> (s: String)
    ensures
        s@ == spec_escape_bytes(bytes@),
{
    let mut out = String::new();
    let n = bytes.len();
    let mut i: usize = 0;
    proof {
        assert(out@ =~= spec_escape_bytes(bytes@.take(0)));
    }
    while i < n
        invariant
            0 <= i <= n,
            out@ == spec_escape_bytes(bytes@.take(i as int)),
        decreases n - i,
    {
        push_byte_escape(&mut out, bytes[i]);
        proof {
            assert(bytes@.take(i + 1).drop_last() =~= bytes@.take(i as int));
            assert(bytes@.take(i + 1).last() == bytes@[i as int]);
        }
        i = i + 1;
    }
    proof {
        assert(bytes@.take(n as int) =~= bytes@);
    }
    out
}

/// The unsigned LEB128 encoding of a number.
pub open spec fn spec_leb128(n: int) -> Seq<u8>
    decreases n,
{
    if n < 128 {
        seq![n as u8]
    } else {
        seq![(n % 128 + 128) as u8] + spec_leb128(n / 128)
    }
}

/// Append the unsigned LEB128 encoding of `n`.
pub fn push_leb128(out: &mut Vec<u8>, n: u64)
    ensures
        final(out)@ == old(out)@ + spec_leb128(n as int),
    decreases n,
{
    if n < 128 {
        out.push(n as u8);
        proof {
            assert(out@ =~= old(out)@ + spec_leb128(n as int));
        }
    } else {
        out.push((n % 128 + 128) as u8);
        push_leb128(out, n / 128);
        proof {
            assert(out@ =~= old(out)@ + spec_leb128(n as int));
        }
    }
}

/// The framing of one named auxiliary section: the custom-section id, the
/// payload size, then the name (as a length-prefixed string) and the data.
pub open spec fn spec_custom_section(name: Seq<u8>, data: Seq<u8>) -> Seq<u8> {
    let payload = spec_leb128(name.len() as int) + name + data;
    seq![0u8] + spec_leb128(payload.len() as int) + payload
}

/// Append a named auxiliary section to a binary module.
pub fn add_custom_section(module: &Vec<u8>, name: &str, data: &Vec<u8>) -> (r: Vec<u8>)
    ensures
        r@ == module@ + spec_custom_section(name.spec_bytes(), data@),
{
    let name_bytes = name.as_bytes_vec();
    let mut payload: Vec<u8> = Vec::new();
    push_leb128(&mut payload, name_bytes.len() as u64);
    let mut i: usize = 0;
    let ghost pre = payload@;
    while i < name_bytes.len()
        invariant
            0 <= i <= name_bytes@.len(),
            payload@ == pre + name_bytes@.take(i as int),
        decreases name_bytes@.len() - i,
    {
        let b = name_bytes[i];
        payload.push(b);
        proof {
            assert(pre + name_bytes@.take(i as int) + seq![name_bytes@[i as int]] =~= pre
                + name_bytes@.take(i as int + 1));
        }
        i = i + 1;
    }
    proof {
        assert(name_bytes@.take(name_bytes@.len() as int) =~= name_bytes@);
    }
    let mut j: usize = 0;
    let ghost pre2 = payload@;
    while j < data.len()
        invariant
            0 <= j <= data@.len(),
            payload@ == pre2 + data@.take(j as int),
        decreases data@.len() - j,
    {
        let b = data[j];
        payload.push(b);
        proof {
            assert(pre2 + data@.take(j as int) + seq![data@[j as int]] =~= pre2 + data@.take(
                j as int + 1,
            ));
        }
        j = j + 1;
    }
    proof {
        assert(data@.take(data@.len() as int) =~= data@);
    }
    let mut out: Vec<u8> = Vec::new();
    let mut k: usize = 0;
    while k < module.len()
        invariant
            0 <= k <= module@.len(),
            out@ == module@.take(k as int),
        decreases module@.len() - k,
    {
        let b = module[k];
        out.push(b);
        proof {
            assert(module@.take(k as int) + seq![module@[k as int]] =~= module@.take(k as int + 1));
        }
        k = k + 1;
    }
    proof {
        assert(module@.take(module@.len() as int) =~= module@);
    }
    out.push(0u8);
    push_leb128(&mut out, payload.len() as u64);
    let mut m: usize = 0;
    let ghost pre3 = out@;
    while m < payload.len()
        invariant
            0 <= m <= payload@.len(),
            out@ == pre3 + payload@.take(m as int),
        decreases payload@.len() - m,
    {
        let b = payload[m];
        out.push(b);
        proof {
            assert(pre3 + payload@.take(m as int) + seq![payload@[m as int]] =~= pre3
                + payload@.take(m as int + 1));
        }
        m = m + 1;
    }
    proof {
        assert(payload@.take(payload@.len() as int) =~= payload@);
        assert(payload@ =~= spec_leb128(name.spec_bytes().len() as int) + name.spec_bytes()
            + data@);
        assert(out@ =~= module@ + spec_custom_section(name.spec_bytes(), data@));
    }
    out
}

/// The strings of the application descriptor, in interning order.
pub open spec fn app_strings(app: AppMeta) -> Seq<Seq<char>> {
    seq![app.name@, app.version@, app.description@]
}

/// An optional string contributes itself when present.
pub open spec fn opt_string(v: Option<Seq<char>>) -> Seq<Seq<char>> {
    match v {
        Some(s) => seq![s],
        None => Seq::empty(),
    }
}

/// The strings of one compact argument definition, in interning order.
pub open spec fn arg_def_strings(a: ArgDef) -> Seq<Seq<char>> {
    seq![a.name@] + opt_string(a.short.deep_view()) + opt_string(a.long.deep_view())
        + seq![a.help@] + opt_string(a.default_value.deep_view()) + opt_string(
        a.value_name.deep_view(),
    )
}

/// The strings of one schema argument, in interning order.
pub open spec fn arg_schema_strings(a: ArgSchema) -> Seq<Seq<char>> {
    seq![a.name@] + opt_string(a.short.deep_view()) + opt_string(a.long.deep_view())
        + seq![a.help@] + opt_string(a.default_value.deep_view()) + opt_string(a.env.deep_view())
        + opt_string(a.value_name.deep_view()) + opt_string(a.value_type.deep_view())
        + a.possible_values.deep_view() + a.conflicts_with.deep_view() + a.requires.deep_view()
}

pub open spec fn arg_defs_strings(args: Seq<ArgDef>) -> Seq<Seq<char>>
    decreases args.len(),
{
    if args.len() == 0 {
        Seq::empty()
    } else {
        arg_defs_strings(args.drop_last()) + arg_def_strings(args.last())
    }
}

pub open spec fn arg_schemas_strings(args: Seq<ArgSchema>) -> Seq<Seq<char>>
    decreases args.len(),
{
    if args.len() == 0 {
        Seq::empty()
    } else {
        arg_schemas_strings(args.drop_last()) + arg_schema_strings(args.last())
    }
}

/// The strings of one command, in interning order: the compact metadata
/// first, then the richer schema when one is embedded.
pub open spec fn cmd_strings(c: CommandInfo) -> Seq<Seq<char>> {
    let m = c.metadata.command_meta;
    let meta_part = seq![m.name@, m.summary@, m.usage@, m.version@, m.description@]
        + m.aliases.deep_view() + m.examples.deep_view() + arg_defs_strings(m.args@);
    match c.metadata.command_schema {
        None => meta_part,
        Some(s) => meta_part + s.aliases.deep_view() + s.examples.deep_view()
            + arg_schemas_strings(s.args@),
    }
}

pub open spec fn cmds_strings(cmds: Seq<CommandInfo>) -> Seq<Seq<char>>
    decreases cmds.len(),
{
    if cmds.len() == 0 {
        Seq::empty()
    } else {
        cmds_strings(cmds.drop_last()) + cmd_strings(cmds.last())
    }
}

/// Every string any descriptor field references, in interning order.
pub open spec fn all_strings(cmds: Seq<CommandInfo>, app: AppMeta) -> Seq<Seq<char>> {
    app_strings(app) + cmds_strings(cmds)
}

/// Interning a whole list of strings, in order.
pub open spec fn fold_intern(m: TableModel, strs: Seq<Seq<char>>) -> TableModel
    decreases strs.len(),
{
    if strs.len() == 0 {
        m
    } else {
        fold_intern(spec_intern(m, strs[0]).0, strs.drop_first())
    }
}

/// Total byte weight of a list of strings.
pub open spec fn total_bytes(strs: Seq<Seq<char>>) -> int
    decreases strs.len(),
{
    if strs.len() == 0 {
        0
    } else {
        str_bytes(strs[0]).len() + total_bytes(strs.drop_first())
    }
}

/// A list of strings never has negative byte weight.
pub proof fn lemma_total_bytes_nonneg(strs: Seq<Seq<char>>)
    ensures
        total_bytes(strs) >= 0,
    decreases strs.len(),
{
    if strs.len() > 0 {
        lemma_total_bytes_nonneg(strs.drop_first());
    }
}

/// Interning a list splits into interning its parts.
pub proof fn lemma_fold_intern_append(m: TableModel, xs: Seq<Seq<char>>, ys: Seq<Seq<char>>)
    ensures
        fold_intern(m, xs + ys) == fold_intern(fold_intern(m, xs), ys),
    decreases xs.len(),
{
    if xs.len() == 0 {
        assert(xs + ys =~= ys);
    } else {
        assert((xs + ys).drop_first() =~= xs.drop_first() + ys);
        lemma_fold_intern_append(spec_intern(m, xs[0]).0, xs.drop_first(), ys);
    }
}

/// The total byte weight splits over the parts of a list.
pub proof fn lemma_total_bytes_append(xs: Seq<Seq<char>>, ys: Seq<Seq<char>>)
    ensures
        total_bytes(xs + ys) == total_bytes(xs) + total_bytes(ys),
    decreases xs.len(),
{
    if xs.len() == 0 {
        assert(xs + ys =~= ys);
    } else {
        assert((xs + ys).drop_first() =~= xs.drop_first() + ys);
        lemma_total_bytes_append(xs.drop_first(), ys);
    }
}

/// One interning grows the blob by at most the string's byte weight and
/// keeps the table well-formed.
pub proof fn lemma_intern_growth(m: TableModel, s: Seq<char>)
    requires
        table_wf(m),
        m.data.len() + str_bytes(s).len() <= u32::MAX,
    ensures
        table_wf(spec_intern(m, s).0),
        m.data.len() <= spec_intern(m, s).0.data.len() <= m.data.len() + str_bytes(s).len(),
{
    crate::strtab::lemma_spec_intern_wf(m, s);
}

/// Interning a list grows the blob by at most its total byte weight and
/// keeps the table well-formed.
pub proof fn lemma_fold_intern_growth(m: TableModel, strs: Seq<Seq<char>>)
    requires
        table_wf(m),
        m.data.len() + total_bytes(strs) <= u32::MAX,
    ensures
        table_wf(fold_intern(m, strs)),
        m.data.len() <= fold_intern(m, strs).data.len() <= m.data.len() + total_bytes(strs),
        total_bytes(strs) >= 0,
    decreases strs.len(),
{
    lemma_total_bytes_nonneg(strs);
    if strs.len() > 0 {
        lemma_total_bytes_nonneg(strs.drop_first());
        lemma_intern_growth(m, strs[0]);
        lemma_fold_intern_growth(spec_intern(m, strs[0]).0, strs.drop_first());
    }
}

/// Intern a list of plain strings.
#[verifier::loop_isolation(false)]
fn intern_list(t: &mut StringTable, strs: &Vec<String>)
    requires
        old(t).wf(),
        old(t)@.data.len() + total_bytes(strs.deep_view()) <= u32::MAX,
    ensures
        final(t).wf(),
        final(t)@ == fold_intern(old(t)@, strs.deep_view()),
        final(t)@.data.len() <= old(t)@.data.len() + total_bytes(strs.deep_view()),
{
    let ghost sv = strs.deep_view();
    proof {
        lemma_fold_intern_growth(old(t)@, sv);
        assert(sv.skip(0) =~= sv);
    }
    let n = strs.len();
    let mut i: usize = 0;
    while i < n
        invariant
            0 <= i <= n,
            n == sv.len(),
            t.wf(),
            fold_intern(old(t)@, sv) == fold_intern(t@, sv.skip(i as int)),
            t@.data.len() + total_bytes(sv.skip(i as int)) <= u32::MAX,
        decreases n - i,
    {
        proof {
            assert(sv.skip(i as int)[0] == sv[i as int]);
            assert(sv.skip(i as int).drop_first() =~= sv.skip(i + 1));
            lemma_total_bytes_nonneg(sv.skip(i + 1));
            assert(total_bytes(sv.skip(i as int)) == str_bytes(sv[i as int]).len() + total_bytes(
                sv.skip(i + 1),
            ));
        }
        let ghost before = t@;
        t.intern(strs[i].as_str());
        proof {
            lemma_intern_growth(before, sv[i as int]);
        }
        i = i + 1;
    }
    proof {
        assert(sv.skip(n as int) =~= Seq::<Seq<char>>::empty());
        lemma_fold_intern_growth(old(t)@, sv);
    }
}

/// Append the strings of one optional field.
fn push_opt(out: &mut Vec<String>, v: &Option<String>)
    ensures
        final(out).deep_view() == old(out).deep_view() + opt_string(v.deep_view()),
{
    match v {
        Some(s) => {
            let ghost pre = out.deep_view();
            out.push(s.clone());
            proof {
                assert(out.deep_view() =~= pre + opt_string(v.deep_view()));
            }
        },
        None => {
            proof {
                assert(out.deep_view() =~= old(out).deep_view() + opt_string(v.deep_view()));
            }
        },
    }
}

/// Append one string.
fn push_one(out: &mut Vec<String>, s: &String)
    ensures
        final(out).deep_view() == old(out).deep_view() + seq![s@],
{
    let ghost pre = out.deep_view();
    out.push(s.clone());
    proof {
        assert(out.deep_view() =~= pre + seq![s@]);
    }
}

/// Append a whole list of strings.
#[verifier::loop_isolation(false)]
fn push_all(out: &mut Vec<String>, add: &Vec<String>)
    ensures
        final(out).deep_view() == old(out).deep_view() + add.deep_view(),
{
    let n = add.len();
    let mut i: usize = 0;
    proof {
        assert(out.deep_view() =~= old(out).deep_view() + add.deep_view().take(0));
    }
    while i < n
        invariant
            0 <= i <= n,
            out.deep_view() == old(out).deep_view() + add.deep_view().take(i as int),
        decreases n - i,
    {
        let ghost pre = out.deep_view();
        out.push(add[i].clone());
        proof {
            assert(out.deep_view() =~= pre.push(add.deep_view()[i as int]));
            assert(out.deep_view() =~= old(out).deep_view() + add.deep_view().take(i + 1));
        }
        i = i + 1;
    }
    proof {
        assert(add.deep_view().take(n as int) =~= add.deep_view());
    }
}

/// Append the strings of one compact argument definition.
fn collect_arg_def(out: &mut Vec<String>, a: &ArgDef)
    ensures
        final(out).deep_view() == old(out).deep_view() + arg_def_strings(*a),
{
    push_one(out, &a.name);
    push_opt(out, &a.short);
    push_opt(out, &a.long);
    push_one(out, &a.help);
    push_opt(out, &a.default_value);
    push_opt(out, &a.value_name);
    proof {
        assert(out.deep_view() =~= old(out).deep_view() + arg_def_strings(*a));
    }
}

/// Append the strings of one schema argument.
#[verifier::rlimit(60)]
fn collect_arg_schema(out: &mut Vec<String>, a: &ArgSchema)
    ensures
        final(out).deep_view() == old(out).deep_view() + arg_schema_strings(*a),
{
    push_one(out, &a.name);
    push_opt(out, &a.short);
    push_opt(out, &a.long);
    push_one(out, &a.help);
    push_opt(out, &a.default_value);
    push_opt(out, &a.env);
    push_opt(out, &a.value_name);
    push_opt(out, &a.value_type);
    push_all(out, &a.possible_values);
    push_all(out, &a.conflicts_with);
    push_all(out, &a.requires);
    proof {
        assert(out.deep_view() =~= old(out).deep_view() + arg_schema_strings(*a));
    }
}

/// Append the strings of one command.
#[verifier::loop_isolation(false)]
#[verifier::rlimit(60)]
fn collect_cmd(out: &mut Vec<String>, c: &CommandInfo)
    ensures
        final(out).deep_view() == old(out).deep_view() + cmd_strings(*c),
{
    let m = &c.metadata.command_meta;
    push_one(out, &m.name);
    push_one(out, &m.summary);
    push_one(out, &m.usage);
    push_one(out, &m.version);
    push_one(out, &m.description);
    push_all(out, &m.aliases);
    push_all(out, &m.examples);
    let ghost before_args = out.deep_view();
    let na = m.args.len();
    let mut j: usize = 0;
    proof {
        assert(m.args@.take(0) =~= Seq::<ArgDef>::empty());
        assert(out.deep_view() =~= before_args + arg_defs_strings(m.args@.take(0)));
    }
    while j < na
        invariant
            0 <= j <= na,
            na == m.args@.len(),
            out.deep_view() == before_args + arg_defs_strings(m.args@.take(j as int)),
        decreases na - j,
    {
        collect_arg_def(out, &m.args[j]);
        proof {
            assert(m.args@.take(j + 1).drop_last() =~= m.args@.take(j as int));
            assert(m.args@.take(j + 1).last() == m.args@[j as int]);
            assert(out.deep_view() =~= before_args + arg_defs_strings(m.args@.take(j + 1)));
        }
        j = j + 1;
    }
    proof {
        assert(m.args@.take(na as int) =~= m.args@);
    }
    match &c.metadata.command_schema {
        None => {
            proof {
                assert(out.deep_view() =~= old(out).deep_view() + cmd_strings(*c));
            }
        },
        Some(s) => {
            push_all(out, &s.aliases);
            push_all(out, &s.examples);
            let ghost before_sargs = out.deep_view();
            let ns = s.args.len();
            let mut k: usize = 0;
            proof {
                assert(s.args@.take(0) =~= Seq::<ArgSchema>::empty());
                assert(out.deep_view() =~= before_sargs + arg_schemas_strings(s.args@.take(0)));
            }
            while k < ns
                invariant
                    0 <= k <= ns,
                    ns == s.args@.len(),
                    out.deep_view() == before_sargs + arg_schemas_strings(s.args@.take(k as int)),
                decreases ns - k,
            {
                collect_arg_schema(out, &s.args[k]);
                proof {
                    assert(s.args@.take(k + 1).drop_last() =~= s.args@.take(k as int));
                    assert(s.args@.take(k + 1).last() == s.args@[k as int]);
                    assert(out.deep_view() =~= before_sargs + arg_schemas_strings(
                        s.args@.take(k + 1),
                    ));
                }
                k = k + 1;
            }
            proof {
                assert(s.args@.take(ns as int) =~= s.args@);
                assert(out.deep_view() =~= old(out).deep_view() + cmd_strings(*c));
            }
        },
    }
}

/// Collect every descriptor string, in interning order.
#[verifier::loop_isolation(false)]
pub fn collect_strings(commands: &Vec<CommandInfo>, app: &AppMeta) -> (out: Vec<String>)
    ensures
        out.deep_view() == all_strings(commands@, *app),
{
    let mut out: Vec<String> = Vec::new();
    push_one(&mut out, &app.name);
    push_one(&mut out, &app.version);
    push_one(&mut out, &app.description);
    proof {
        assert(out.deep_view() =~= app_strings(*app));
    }
    let ghost base = out.deep_view();
    let n = commands.len();
    let mut i: usize = 0;
    proof {
        assert(commands@.take(0) =~= Seq::<CommandInfo>::empty());
        assert(out.deep_view() =~= base + cmds_strings(commands@.take(0)));
    }
    while i < n
        invariant
            0 <= i <= n,
            out.deep_view() == base + cmds_strings(commands@.take(i as int)),
        decreases n - i,
    {
        collect_cmd(&mut out, &commands[i]);
        proof {
            assert(commands@.take(i + 1).drop_last() =~= commands@.take(i as int));
            assert(commands@.take(i + 1).last() == commands@[i as int]);
            assert(out.deep_view() =~= base + cmds_strings(commands@.take(i + 1)));
        }
        i = i + 1;
    }
    proof {
        assert(commands@.take(n as int) =~= commands@);
        assert(out.deep_view() =~= all_strings(commands@, *app));
    }
    out
}

/// The table every generation builds: one full interning pass over every
/// descriptor string, before any code is emitted.
pub open spec fn spec_build_table(cmds: Seq<CommandInfo>, app: AppMeta) -> TableModel {
    fold_intern(empty_table_model(), all_strings(cmds, app))
}

/// Build the string table: a full pass over every field of every descriptor.
pub fn build_string_table(commands: &Vec<CommandInfo>, app: &AppMeta) -> (t: StringTable)
    requires
        1 + total_bytes(all_strings(commands@, *app)) <= u32::MAX,
    ensures
        t.wf(),
        t@ == spec_build_table(commands@, *app),
        t@.data.len() <= 1 + total_bytes(all_strings(commands@, *app)),
{
    let strs = collect_strings(commands, app);
    let mut t = StringTable::new();
    intern_list(&mut t, &strs);
    t
}

/// A component package name: namespace, name, and an optional version.
#[derive(Debug, Clone)]
pub struct PackageName {
    pub namespace: String,
    pub name: String,
    pub version: Option<String>,
}

/// Relies on semver::Version::parse: whether a version string is accepted
/// is a function of the string alone.
pub uninterp spec fn semver_accepts(s: Seq<char>) -> bool;

/// Relies on semver::Version::parse, for validating a declared package
/// version.
#[verifier::external_body]
fn check_semver(s: &str) -> (r: Result<(), String>)
    ensures
        (r is Ok) == semver_accepts(s@),
{
    match semver::Version::parse(s) {
        Ok(_) => Ok(()),
        Err(e) => Err(e.to_string()),
    }
}

/// What parsing a package name yields: the namespace before the colon and
/// the name after it (both trimmed), the trimmed version after an at sign
/// when one is declared; a missing colon, an empty namespace or name, a
/// blank declared version, or one the version grammar refuses, all fail.
pub open spec fn spec_parse_package(s: Seq<char>) -> Option<(Seq<char>, Seq<char>, Option<
    Seq<char>,
>)> {
    match char_index(s, ':') {
        None => None,
        Some(ci) => {
            let ns = s.take(ci);
            let rest = s.skip(ci + 1);
            let pkg = match char_index(rest, '@') {
                Some(ai) => rest.take(ai),
                None => rest,
            };
            let ver = match char_index(rest, '@') {
                Some(ai) => Some(rest.skip(ai + 1)),
                None => None,
            };
            if ns.len() == 0 {
                None
            } else if pkg.len() == 0 {
                None
            } else {
                match ver {
                    None => Some((trimmed(ns), trimmed(pkg), None)),
                    Some(raw) => {
                        if trimmed(raw).len() == 0 {
                            None
                        } else if !semver_accepts(trimmed(raw)) {
                            None
                        } else {
                            Some((trimmed(ns), trimmed(pkg), Some(trimmed(raw))))
                        }
                    },
                }
            }
        },
    }
}

/// The shape of a parsed package name.
pub open spec fn package_view(p: PackageName) -> (Seq<char>, Seq<char>, Option<Seq<char>>) {
    (p.namespace@, p.name@, p.version.deep_view())
}

/// Parse a `namespace:name` or `namespace:name@version` package name.
pub fn parse_package_name(name: &str) -> (r: Result<PackageName, String>)
    ensures
        match r {
            Ok(p) => spec_parse_package(name@) == Some(package_view(p)),
            Err(_) => spec_parse_package(name@) is None,
        },
{
    let n = name.unicode_len();
    let Some(ci) = find_char(name, ':') else {
        return Err("registry package name missing namespace".to_owned());
    };
    let ns = name.substring_char(0, ci);
    let rest = name.substring_char(ci + 1, n);
    proof {
        assert(rest@ =~= name@.skip(ci + 1));
    }
    let rn = rest.unicode_len();
    let (pkg, ver): (&str, Option<&str>) = match find_char(rest, '@') {
        Some(ai) => (rest.substring_char(0, ai), Some(rest.substring_char(ai + 1, rn))),
        None => (rest, None),
    };
    if ns.unicode_len() == 0 {
        return Err("registry package namespace is empty".to_owned());
    }
    if pkg.unicode_len() == 0 {
        return Err("registry package name is empty".to_owned());
    }
    match ver {
        None => Ok(
            PackageName {
                namespace: trim(ns).to_owned(),
                name: trim(pkg).to_owned(),
                version: None,
            },
        ),
        Some(raw) => {
            let raw_trimmed = trim(raw);
            if raw_trimmed.unicode_len() == 0 {
                return Err("registry package version is empty".to_owned());
            }
            match check_semver(raw_trimmed) {
                Ok(_) => Ok(
                    PackageName {
                        namespace: trim(ns).to_owned(),
                        name: trim(pkg).to_owned(),
                        version: Some(raw_trimmed.to_owned()),
                    },
                ),
                Err(e) => {
                    let mut msg = String::new();
                    msg.append("invalid registry package version: ");
                    msg.append(e.as_str());
                    Err(msg)
                },
            }
        },
    }
}

/// The fully qualified name of an interface inside a package.
pub open spec fn spec_interface_id(
    pkg: (Seq<char>, Seq<char>, Option<Seq<char>>),
    iface: Seq<char>,
) -> Seq<char> {
    let base = pkg.0 + ":"@ + pkg.1 + "/"@ + iface;
    match pkg.2 {
        Some(v) => base + "@"@ + v,
        None => base,
    }
}

impl PackageName {
    /// Render the fully qualified name of an interface inside this package.
    pub fn interface_id(&self, iface: &str) -> (r: String)
        ensures
            r@ == spec_interface_id(package_view(*self), iface@),
    {
        let mut s = String::new();
        s.append(self.namespace.as_str());
        s.append(":");
        s.append(self.name.as_str());
        s.append("/");
        s.append(iface);
        match &self.version {
            Some(v) => {
                s.append("@");
                s.append(v.as_str());
            },
            None => {},
        }
        proof {
            assert(s@ =~= spec_interface_id(package_view(*self), iface@));
        }
        s
    }
}

/// The first package-declaration line of a source.
pub open spec fn find_package_line(lines: Seq<Seq<char>>) -> Option<Seq<char>>
    decreases lines.len(),
{
    if lines.len() == 0 {
        None
    } else if is_package_line(lines[0]) {
        Some(lines[0])
    } else {
        find_package_line(lines.drop_first())
    }
}

/// A package declaration reduced to the bare package name: the leading
/// keyword and the closing semicolon removed, blanks trimmed.
pub open spec fn spec_strip_decl(line: Seq<char>) -> Seq<char> {
    let t = trimmed(line);
    let t2 = if "package "@.is_prefix_of(t) {
        t.skip(8)
    } else {
        t
    };
    let t3 = trimmed(t2);
    let t4 = if t3.len() > 0 && t3.last() == ';' {
        t3.drop_last()
    } else {
        t3
    };
    trimmed(t4)
}

/// The package the registry interface is declared in, read off the registry
/// interface source.
pub open spec fn spec_registry_package() -> Option<(Seq<char>, Seq<char>, Option<Seq<char>>)> {
    match find_package_line(split_lines(REGISTRY_WIT@)) {
        None => None,
        Some(line) => spec_parse_package(spec_strip_decl(line)),
    }
}

/// Read the registry package name out of the registry interface source.
#[verifier::loop_isolation(false)]
pub fn registry_package_name() -> (r: Result<PackageName, String>)
    ensures
        match r {
            Ok(p) => spec_registry_package() == Some(package_view(p)),
            Err(_) => spec_registry_package() is None,
        },
{
    let lines = split_lines_vec(REGISTRY_WIT);
    let ghost lv = split_lines(REGISTRY_WIT@);
    let n = lines.len();
    let mut i: usize = 0;
    proof {
        assert(lv.skip(0) =~= lv);
    }
    while i < n
        invariant
            0 <= i <= n,
            n == lv.len(),
            lines.deep_view() == lv,
            find_package_line(lv) == find_package_line(lv.skip(i as int)),
        decreases n - i,
    {
        let line = &lines[i];
        proof {
            assert(lv.skip(i as int)[0] == lv[i as int]);
            assert(lv[i as int] == line@);
            assert(lv.skip(i as int).drop_first() =~= lv.skip(i + 1));
        }
        if starts_with(trim_start(line.as_str()), "package ") {
            let decl = strip_decl(line.as_str());
            return parse_package_name(decl.as_str());
        }
        i = i + 1;
    }
    proof {
        assert(lv.skip(n as int) =~= Seq::<Seq<char>>::empty());
    }
    Err("registry interface source missing package declaration".to_owned())
}

/// Reduce a package declaration to the bare package name.
fn strip_decl(line: &str) -> (r: String)
    ensures
        r@ == spec_strip_decl(line@),
{
    let t = trim(line);
    let tn = t.unicode_len();
    let t2: &str = if starts_with(t, "package ") {
        proof {
            reveal_strlit("package ");
            assert("package "@.len() == 8);
        }
        t.substring_char(8, tn)
    } else {
        t
    };
    proof {
        if "package "@.is_prefix_of(trimmed(line@)) {
            assert(t2@ =~= trimmed(line@).skip(8));
        }
    }
    let t3 = trim(t2);
    let t3n = t3.unicode_len();
    let t4: &str = if t3n > 0 && t3.get_char(t3n - 1) == ';' {
        let r = t3.substring_char(0, t3n - 1);
        proof {
            assert(r@ =~= t3@.drop_last());
        }
        r
    } else {
        t3
    };
    trim(t4).to_owned()
}

/// The two import declarations of one command: its metadata entry and its
/// run entry, both under the command's own sub-interface.
pub open spec fn spec_import_pair(
    pkg: (Seq<char>, Seq<char>, Option<Seq<char>>),
    name: Seq<char>,
) -> Seq<char> {
    let iface = spec_interface_id(pkg, name + "-command"@);
    let ident = spec_command_ident(name);
    "  (import \""@ + iface + "\" \"meta\" (func $"@ + ident
        + "_meta (type $import_meta)))\n"@ + "  (import \""@ + iface + "\" \"run\" (func $"@
        + ident + "_run (type $import_run)))\n"@
}

pub open spec fn spec_import_lines(
    pkg: (Seq<char>, Seq<char>, Option<Seq<char>>),
    cmds: Seq<CommandInfo>,
) -> Seq<char>
    decreases cmds.len(),
{
    if cmds.len() == 0 {
        Seq::empty()
    } else {
        spec_import_lines(pkg, cmds.drop_last()) + spec_import_pair(pkg, cmds.last().name@)
    }
}

/// Build the import declarations, one metadata and one run entry per
/// command.
#[verifier::loop_isolation(false)]
pub fn build_imports(commands: &Vec<CommandInfo>) -> (r: Result<String, String>)
    ensures
        match r {
            Ok(s) => spec_registry_package() is Some && s@ == spec_import_lines(
                spec_registry_package()->Some_0,
                commands@,
            ),
            Err(_) => spec_registry_package() is None,
        },
{
    let pkg = match registry_package_name() {
        Ok(p) => p,
        Err(e) => {
            return Err(e);
        },
    };
    let ghost pv = package_view(pkg);
    let mut out = String::new();
    let n = commands.len();
    let mut i: usize = 0;
    proof {
        assert(commands@.take(0) =~= Seq::<CommandInfo>::empty());
    }
    while i < n
        invariant
            0 <= i <= n,
            out@ == spec_import_lines(pv, commands@.take(i as int)),
        decreases n - i,
    {
        let name = &commands[i].name;
        let mut iface_name = String::new();
        iface_name.append(name.as_str());
        iface_name.append("-command");
        let iface = pkg.interface_id(iface_name.as_str());
        let ident = command_ident(name.as_str());
        out.append("  (import \"");
        out.append(iface.as_str());
        out.append("\" \"meta\" (func $");
        out.append(ident.as_str());
        out.append("_meta (type $import_meta)))\n");
        out.append("  (import \"");
        out.append(iface.as_str());
        out.append("\" \"run\" (func $");
        out.append(ident.as_str());
        out.append("_run (type $import_run)))\n");
        proof {
            assert(commands@.take(i + 1).drop_last() =~= commands@.take(i as int));
            assert(commands@.take(i + 1).last() == commands@[i as int]);
            assert(out@ =~= spec_import_lines(pv, commands@.take(i + 1)));
        }
        i = i + 1;
    }
    proof {
        assert(commands@.take(n as int) =~= commands@);
    }
    Ok(out)
}

/// The fixed module template. Each placeholder occurs exactly once: the
/// import declarations, the heap-start constant, the three exported bodies,
/// the dispatcher body, and the escaped string-table initializer.
pub const MODULE_TEMPLATE: &'static str = "(module\n  (type $import_meta (func (param i32)))\n  (type $import_run (func (param i32 i32 i32)))\n{{IMPORTS}}\n  (memory (export \"memory\") 1)\n  (global $heap (mut i32) (i32.const {{HEAP_START}}))\n  (func $alloc (param $size i32) (result i32)\n    (local $ptr i32)\n    global.get $heap\n    local.set $ptr\n    global.get $heap\n    local.get $size\n    i32.add\n    global.set $heap\n    local.get $ptr\n  )\n  (func $match-name (param $a_ptr i32) (param $a_len i32) (param $b_ptr i32) (param $b_len i32) (result i32)\n    (local $i i32)\n    local.get $a_len\n    local.get $b_len\n    i32.ne\n    if\n      i32.const 0\n      return\n    end\n    i32.const 0\n    local.set $i\n    block\n    loop\n    local.get $i\n    local.get $a_len\n    i32.ge_u\n    br_if 1\n    local.get $a_ptr\n    local.get $i\n    i32.add\n    i32.load8_u\n    local.get $b_ptr\n    local.get $i\n    i32.add\n    i32.load8_u\n    i32.ne\n    if\n      i32.const 0\n      return\n    end\n    local.get $i\n    i32.const 1\n    i32.add\n    local.set $i\n    br 0\n    end\n    end\n    i32.const 1\n  )\n  (func (export \"wacli:cli/registry@2.0.0#list-commands\") (result i32)\n    (local $result_ptr i32)\n    (local $list_ptr i32)\n    (local $record_ptr i32)\n    (local $aliases_ptr i32)\n    (local $examples_ptr i32)\n    (local $args_ptr i32)\n    (local $arg_ptr i32)\n{{LIST_COMMANDS_BODY}}\n  )\n  (func (export \"wacli:cli/registry-schema@2.0.0#list-schemas\") (result i32)\n    (local $result_ptr i32)\n    (local $list_ptr i32)\n    (local $record_ptr i32)\n    (local $aliases_ptr i32)\n    (local $examples_ptr i32)\n    (local $args_ptr i32)\n    (local $arg_ptr i32)\n    (local $values_ptr i32)\n    (local $conflicts_ptr i32)\n    (local $requires_ptr i32)\n{{LIST_SCHEMAS_BODY}}\n  )\n  (func (export \"wacli:cli/registry-schema@2.0.0#get-app-meta\") (result i32)\n    (local $result_ptr i32)\n{{APP_META_BODY}}\n  )\n  (func (export \"wacli:cli/registry@2.0.0#run\") (param $name_ptr i32) (param $name_len i32) (param $argv_ptr i32) (param $argv_len i32) (result i32)\n    (local $ret_ptr i32)\n{{RUN_BODY}}\n  )\n  (func (export \"cabi_realloc\") (param i32 i32 i32 i32) (result i32)\n    (local $ptr i32)\n    global.get $heap\n    local.set $ptr\n    global.get $heap\n    local.get 3\n    i32.add\n    global.set $heap\n    local.get $ptr\n  )\n  (data (i32.const 0) \"{{STRING_DATA}}\")\n)\n";

/// The name of the auxiliary section carrying the interface metadata.
pub const METADATA_SECTION_NAME: &'static str = "component-type:registry";

#[verifier::external_type_specification]
#[verifier::external_body]
pub struct ExResolve(wit_parser::Resolve);

#[verifier::external_type_specification]
#[verifier::external_body]
#[verifier::reject_recursive_types(T)]
pub struct ExId<T>(id_arena::Id<T>);

#[verifier::external_type_specification]
#[verifier::external_body]
pub struct ExPackage(wit_parser::Package);

#[verifier::external_type_specification]
#[verifier::external_body]
pub struct ExWorld(wit_parser::World);

#[verifier::external_type_specification]
#[verifier::external_body]
pub struct ExComponentEncoder(wit_component::ComponentEncoder);

/// The interface sources a resolver holds, in the order they were pushed.
pub uninterp spec fn resolve_model(r: wit_parser::Resolve) -> Seq<Seq<char>>;

/// The position among the pushed sources that a package handle denotes.
pub uninterp spec fn resolve_pkg_pos(r: wit_parser::Resolve, p: wit_parser::PackageId) -> int;

/// The (package position, world name) pair a world handle denotes.
pub uninterp spec fn resolve_world_key(r: wit_parser::Resolve, w: wit_parser::WorldId) -> (
    int,
    Seq<char>,
);

/// Relies on wit_parser::Resolve::select_world: which world a selection
/// picks is a function of the resolver contents, the main package, and the
/// requested name.
pub uninterp spec fn spec_select_world(
    sources: Seq<Seq<char>>,
    pkg: int,
    name: Seq<char>,
) -> Option<(int, Seq<char>)>;

/// Relies on wit_component::metadata::encode: the encoded section is a
/// function of the resolver contents and the selected world.
pub uninterp spec fn spec_encode_metadata(
    sources: Seq<Seq<char>>,
    world: (int, Seq<char>),
) -> Option<Seq<u8>>;

/// Relies on wat::parse_str: the binary form is a function of the module
/// text alone.
pub uninterp spec fn spec_parse_wat(text: Seq<char>) -> Option<Seq<u8>>;

/// Relies on wit_parser::Resolve::push_source: whether a push succeeds is a
/// function of the resolver contents and the pushed text (the path labels
/// error messages and is otherwise not read).
pub uninterp spec fn spec_push_ok(sources: Seq<Seq<char>>, text: Seq<char>) -> bool;

/// Relies on wit_component::ComponentEncoder::module: whether feeding a
/// module succeeds is a function of the encoder state and the module bytes.
pub uninterp spec fn spec_feed_ok(model: (Seq<Seq<u8>>, bool), module: Seq<u8>) -> bool;

/// The modules fed to a component encoder, and its validation flag.
pub uninterp spec fn encoder_model(e: wit_component::ComponentEncoder) -> (Seq<Seq<u8>>, bool);

/// Relies on wit_component::ComponentEncoder::encode: the component bytes
/// are a function of the fed modules and the validation flag.
pub uninterp spec fn spec_encode_component(model: (Seq<Seq<u8>>, bool)) -> Option<Seq<u8>>;

/// Relies on wat::parse_str, for parsing the emitted module text into its
/// binary form.
#[verifier::external_body]
fn parse_wat(text: &str) -> (r: Result<Vec<u8>, String>)
    ensures
        (r is Ok) == (spec_parse_wat(text@) is Some),
        r is Ok ==> Some(r->Ok_0@) == spec_parse_wat(text@),
{
    wat::parse_str(text).map_err(|e| e.to_string())
}

/// Relies on wit_parser::Resolve::default, for a resolver holding nothing.
#[verifier::external_body]
fn new_resolve() -> (r: wit_parser::Resolve)
    ensures
        resolve_model(r) == Seq::<Seq<char>>::empty(),
{
    wit_parser::Resolve::default()
}

/// Relies on wit_parser::Resolve::push_source: on success the source joins
/// the resolver contents and the returned handle denotes its position; a
/// failed push consumes the resolver.
#[verifier::external_body]
fn push_wit(r: wit_parser::Resolve, path: &str, text: &str) -> (res: Result<
    (wit_parser::Resolve, wit_parser::PackageId),
    String,
>)
    ensures
        (res is Ok) == spec_push_ok(resolve_model(r), text@),
        res is Ok ==> resolve_model(res->Ok_0.0) == resolve_model(r).push(text@)
            && resolve_pkg_pos(res->Ok_0.0, res->Ok_0.1) == resolve_model(r).len(),
{
    let mut r = r;
    match r.push_source(path, text) {
        Ok(id) => Ok((r, id)),
        Err(e) => Err(e.to_string()),
    }
}

/// Relies on wit_parser::Resolve::select_world, for picking the world the
/// synthesized description declares.
#[verifier::external_body]
fn select_world(r: &wit_parser::Resolve, pkg: wit_parser::PackageId, name: &str) -> (res: Result<
    wit_parser::WorldId,
    String,
>)
    ensures
        (res is Ok) == (spec_select_world(
            resolve_model(*r),
            resolve_pkg_pos(*r, pkg),
            name@,
        ) is Some),
        res is Ok ==> Some(resolve_world_key(*r, res->Ok_0)) == spec_select_world(
            resolve_model(*r),
            resolve_pkg_pos(*r, pkg),
            name@,
        ),
{
    r.select_world(&[pkg], Some(name)).map_err(|e| e.to_string())
}

/// Relies on wit_component::metadata::encode, for the auxiliary section
/// bytes describing the module as an implementation of the selected world.
#[verifier::external_body]
fn encode_metadata(r: &wit_parser::Resolve, w: wit_parser::WorldId) -> (res: Result<
    Vec<u8>,
    String,
>)
    ensures
        (res is Ok) == (spec_encode_metadata(resolve_model(*r), resolve_world_key(*r, w)) is Some),
        res is Ok ==> Some(res->Ok_0@) == spec_encode_metadata(
            resolve_model(*r),
            resolve_world_key(*r, w),
        ),
{
    wit_component::metadata::encode(r, w, wit_component::StringEncoding::UTF8, None, false).map_err(
        |e| e.to_string(),
    )
}

/// Relies on wit_component::ComponentEncoder::default: a fresh encoder has
/// no module and does not validate.
#[verifier::external_body]
fn encoder_new() -> (e: wit_component::ComponentEncoder)
    ensures
        encoder_model(e) == (Seq::<Seq<u8>>::empty(), false),
{
    wit_component::ComponentEncoder::default()
}

/// Relies on wit_component::ComponentEncoder::module: on success the module
/// bytes join the fed inputs; a failed feed consumes the encoder.
#[verifier::external_body]
fn encoder_module(e: wit_component::ComponentEncoder, module: &Vec<u8>) -> (res: Result<
    wit_component::ComponentEncoder,
    String,
>)
    ensures
        (res is Ok) == spec_feed_ok(encoder_model(e), module@),
        res is Ok ==> encoder_model(res->Ok_0) == (
            encoder_model(e).0.push(module@),
            encoder_model(e).1,
        ),
{
    let mut e = e;
    if let Err(err) = e.module(module.as_slice()) {
        return Err(err.to_string());
    }
    Ok(e)
}

/// Relies on wit_component::ComponentEncoder::validate, for setting the
/// validation flag.
#[verifier::external_body]
fn encoder_validate(e: wit_component::ComponentEncoder, v: bool) -> (res:
    wit_component::ComponentEncoder)
    ensures
        encoder_model(res) == (encoder_model(e).0, v),
{
    let mut e = e;
    e.validate(v);
    e
}

/// Relies on wit_component::ComponentEncoder::encode, for the final
/// component bytes.
#[verifier::external_body]
fn encoder_encode(e: wit_component::ComponentEncoder) -> (res: Result<Vec<u8>, String>)
    ensures
        (res is Ok) == (spec_encode_component(encoder_model(e)) is Some),
        res is Ok ==> Some(res->Ok_0@) == spec_encode_component(encoder_model(e)),
{
    let mut e = e;
    e.encode().map_err(|x| x.to_string())
}

/// The replacement list one build fills the template with.
pub open spec fn spec_replacements(cmds: Seq<CommandInfo>, app: AppMeta) -> Seq<(
    Seq<char>,
    Seq<char>,
)> {
    let t = spec_build_table(cmds, app);
    let pkg = spec_registry_package()->Some_0;
    seq![
        ("{{IMPORTS}}"@, spec_import_lines(pkg, cmds)),
        ("{{HEAP_START}}"@, spec_dec(spec_heap_start(t.data.len() as int))),
        ("{{LIST_COMMANDS_BODY}}"@, spec_render(spec_list_commands_body(cmds, t))),
        ("{{LIST_SCHEMAS_BODY}}"@, spec_render(spec_list_schemas_body(cmds, t))),
        ("{{APP_META_BODY}}"@, spec_render(spec_app_meta_body(app, t))),
        ("{{RUN_BODY}}"@, spec_render(spec_run_body(cmds, t))),
        ("{{STRING_DATA}}"@, spec_escape_bytes(t.data)),
    ]
}

/// The module text of one build: the template with every placeholder filled
/// exactly once from the emitted pieces.
pub open spec fn spec_wat_module(cmds: Seq<CommandInfo>, app: AppMeta) -> Option<Seq<char>> {
    if spec_registry_package() is None {
        None
    } else {
        spec_apply_template(MODULE_TEMPLATE@, spec_replacements(cmds, app))
    }
}

/// Machine limits under which a build's arithmetic cannot overflow: every
/// emitted immediate fits, and the interned table plus the allocator slack
/// stay addressable.
pub open spec fn gen_fits(cmds: Seq<CommandInfo>, app: AppMeta) -> bool {
    &&& commands_fit(cmds)
    &&& 1 + total_bytes(all_strings(cmds, app)) + 1028 <= u32::MAX
}

/// Build the module text: intern every descriptor string, emit the four
/// bodies, and fill the template.
#[verifier::rlimit(60)]
pub fn build_wat_module(commands: &Vec<CommandInfo>, app: &AppMeta) -> (r: Result<String, String>)
    requires
        gen_fits(commands@, *app),
    ensures
        match r {
            Ok(s) => spec_wat_module(commands@, *app) == Some(s@),
            Err(_) => spec_wat_module(commands@, *app) is None,
        },
{
    let strings = build_string_table(commands, app);
    let imports = match build_imports(commands) {
        Ok(s) => s,
        Err(e) => {
            return Err(e);
        },
    };
    let list_body = build_list_commands_body(commands, &strings);
    let schemas_body = build_list_schemas_body(commands, &strings);
    let app_body = build_app_meta_body(app, &strings);
    let run_body = build_run_body(commands, &strings);
    let heap_start = compute_heap_start(strings.data_len());
    let data_text = escape_bytes(strings.data());
    let mut reps: Vec<(String, String)> = Vec::new();
    reps.push(("{{IMPORTS}}".to_owned(), imports));
    reps.push(("{{HEAP_START}}".to_owned(), dec_u32(heap_start)));
    reps.push(("{{LIST_COMMANDS_BODY}}".to_owned(), render_instrs(&list_body)));
    reps.push(("{{LIST_SCHEMAS_BODY}}".to_owned(), render_instrs(&schemas_body)));
    reps.push(("{{APP_META_BODY}}".to_owned(), render_instrs(&app_body)));
    reps.push(("{{RUN_BODY}}".to_owned(), render_instrs(&run_body)));
    reps.push(("{{STRING_DATA}}".to_owned(), data_text));
    proof {
        reveal_strlit("{{IMPORTS}}");
        reveal_strlit("{{HEAP_START}}");
        reveal_strlit("{{LIST_COMMANDS_BODY}}");
        reveal_strlit("{{LIST_SCHEMAS_BODY}}");
        reveal_strlit("{{APP_META_BODY}}");
        reveal_strlit("{{RUN_BODY}}");
        reveal_strlit("{{STRING_DATA}}");
        assert(Seq::new(reps@.len(), |i: int| (reps@[i].0@, reps@[i].1@)) =~= spec_replacements(
            commands@,
            *app,
        ));
    }
    apply_template(MODULE_TEMPLATE, &reps)
}

/// What one successful generation yields: the parsed module text, carrying
/// the encoded interface metadata as an auxiliary section, wrapped as an
/// unvalidated component.
pub open spec fn spec_generate(cmds: Seq<CommandInfo>, app: AppMeta) -> Option<Seq<u8>> {
    match spec_wat_module(cmds, app) {
        None => None,
        Some(text) => match spec_parse_wat(text) {
            None => None,
            Some(module) => {
                let wit = spec_dynamic_wit(cmds);
                if !spec_push_ok(Seq::empty(), wit) {
                    None
                } else {
                    match spec_select_world(seq![wit], 0, "dynamic-registry"@) {
                        None => None,
                        Some(world) => match spec_encode_metadata(seq![wit], world) {
                            None => None,
                            Some(meta) => {
                                let tagged = module + spec_custom_section(
                                    METADATA_SECTION_NAME.spec_bytes(),
                                    meta,
                                );
                                if !spec_feed_ok((Seq::empty(), false), tagged) {
                                    None
                                } else {
                                    spec_encode_component((seq![tagged], false))
                                }
                            },
                        },
                    }
                }
            },
        },
    }
}

/// Generate the registry artifact for the discovered commands: intern the
/// strings, emit and fill the module text, parse it, bind the synthesized
/// interface metadata, and wrap the result as a component. Structural
/// validation of the artifact is skipped: the adapter for list-of-record
/// returns refuses otherwise well-formed modules.
pub fn generate_registry_wat(commands: &Vec<CommandInfo>, app: &AppMeta) -> (r: Result<
    Vec<u8>,
    String,
>)
    requires
        gen_fits(commands@, *app),
    ensures
        (r is Ok) == (spec_generate(commands@, *app) is Some),
        r is Ok ==> Some(r->Ok_0@) == spec_generate(commands@, *app),
{
    let ghost goal = spec_generate(commands@, *app);
    let wat_source = match build_wat_module(commands, app) {
        Ok(s) => s,
        Err(e) => {
            proof {
                assert(goal is None);
            }
            return Err(e);
        },
    };
    let core_module = match parse_wat(wat_source.as_str()) {
        Ok(m) => m,
        Err(e) => {
            proof {
                assert(goal is None);
            }
            return Err(e);
        },
    };
    let dynamic_wit = generate_dynamic_wit(commands);
    let resolve = new_resolve();
    let (resolve, pkg) = match push_wit(resolve, "registry.wit", dynamic_wit.as_str()) {
        Ok(p) => p,
        Err(e) => {
            proof {
                assert(goal is None);
            }
            return Err(e);
        },
    };
    proof {
        assert(resolve_model(resolve) =~= seq![dynamic_wit@]);
    }
    let world = match select_world(&resolve, pkg, "dynamic-registry") {
        Ok(w) => w,
        Err(e) => {
            proof {
                assert(goal is None);
            }
            return Err(e);
        },
    };
    let encoded_meta = match encode_metadata(&resolve, world) {
        Ok(m) => m,
        Err(e) => {
            proof {
                assert(goal is None);
            }
            return Err(e);
        },
    };
    let module_with_meta = add_custom_section(&core_module, METADATA_SECTION_NAME, &encoded_meta);
    let ghost tagged = spec_parse_wat(wat_source@)->Some_0 + spec_custom_section(
        METADATA_SECTION_NAME.spec_bytes(),
        spec_encode_metadata(seq![dynamic_wit@], resolve_world_key(resolve, world))->Some_0,
    );
    proof {
        assert(module_with_meta@ == tagged);
    }
    let encoder = encoder_new();
    let encoder = match encoder_module(encoder, &module_with_meta) {
        Ok(e) => e,
        Err(e) => {
            proof {
                assert(goal is None);
            }
            return Err(e);
        },
    };
    let encoder = encoder_validate(encoder, false);
    proof {
        assert(encoder_model(encoder).0 =~= seq![module_with_meta@]);
        assert(goal == spec_encode_component((seq![tagged], false)));
    }
    let r = encoder_encode(encoder);
    proof {
        assert((r is Ok) == (goal is Some));
    }
    r
}

/// Generating twice from the same ordered descriptor list yields
/// byte-identical artifacts: the outcome of a successful generation is a
/// function of the descriptors alone.
pub proof fn lemma_generate_deterministic(
    cmds: Seq<CommandInfo>,
    app: AppMeta,
    r1: Seq<u8>,
    r2: Seq<u8>,
)
    requires
        spec_generate(cmds, app) == Some(r1),
        spec_generate(cmds, app) == Some(r2),
    ensures
        r1 == r2,
{
}

/// A prefix never outweighs the whole list.
proof fn lemma_total_prefix_bound(sv: Seq<Seq<char>>, i: int)
    requires
        0 <= i <= sv.len(),
    ensures
        total_bytes(sv.take(i)) <= total_bytes(sv),
{
    assert(sv.take(i) + sv.skip(i) =~= sv);
    lemma_total_bytes_append(sv.take(i), sv.skip(i));
    lemma_total_bytes_nonneg(sv.skip(i));
}

proof fn lemma_total_take_step(sv: Seq<Seq<char>>, i: int)
    requires
        0 <= i < sv.len(),
    ensures
        total_bytes(sv.take(i + 1)) == total_bytes(sv.take(i)) + str_bytes(sv[i]).len(),
{
    assert(sv.take(i + 1) =~= sv.take(i) + seq![sv[i]]);
    lemma_total_bytes_append(sv.take(i), seq![sv[i]]);
    assert(seq![sv[i]].drop_first() =~= Seq::<Seq<char>>::empty());
    assert(total_bytes(seq![sv[i]]) == str_bytes(sv[i]).len() + total_bytes(
        seq![sv[i]].drop_first(),
    ));
}

/// Check the total byte weight of every descriptor string against the
/// addressable table bound.
#[verifier::loop_isolation(false)]
fn check_table_bound(commands: &Vec<CommandInfo>, app: &AppMeta) -> (r: bool)
    ensures
        r == (1 + total_bytes(all_strings(commands@, *app)) + 1028 <= u32::MAX),
{
    let strs = collect_strings(commands, app);
    let ghost sv = strs.deep_view();
    let n = strs.len();
    let mut sum: u64 = 0;
    let mut i: usize = 0;
    proof {
        assert(sv.take(0) =~= Seq::<Seq<char>>::empty());
    }
    while i < n
        invariant
            0 <= i <= n,
            n == sv.len(),
            sum == total_bytes(sv.take(i as int)),
            sum + 1029 <= u32::MAX,
        decreases n - i,
    {
        let b = strs[i].as_str().as_bytes_vec().len() as u64;
        proof {
            assert(sv[i as int] == strs@[i as int]@);
            assert(b == str_bytes(sv[i as int]).len());
            lemma_total_take_step(sv, i as int);
        }
        if b > 0xffff_ffffu64 || sum + 1029 + b > 0xffff_ffffu64 {
            proof {
                lemma_total_bytes_nonneg(sv.take(i as int));
                lemma_total_prefix_bound(sv, i as int + 1);
                assert(total_bytes(sv) >= sum + b);
                assert(1 + total_bytes(sv) + 1028 > u32::MAX);
            }
            return false;
        }
        sum = sum + b;
        i = i + 1;
    }
    proof {
        assert(sv.take(n as int) =~= sv);
    }
    true
}

/// Check every per-record element count against the immediate bound. The
/// thresholds are the exact largest counts whose scaled sizes still fit an
/// emitted immediate.
#[verifier::loop_isolation(false)]
#[verifier::rlimit(100)]
fn check_counts(commands: &Vec<CommandInfo>) -> (r: bool)
    ensures
        r == commands_fit(commands@),
{
    let n = commands.len();
    if n > 31580641 {
        proof {
            assert(commands@.len() * CMD_RECORD_SIZE > IMM_LIMIT) by (nonlinear_arith)
                requires
                    commands@.len() >= 31580642,
            ;
        }
        return false;
    }
    proof {
        assert(n * CMD_RECORD_SIZE <= IMM_LIMIT) by (nonlinear_arith)
            requires
                n <= 31580641,
        ;
    }
    let mut i: usize = 0;
    while i < n
        invariant
            0 <= i <= n,
            n == commands@.len(),
            forall|j: int|
                0 <= j < i ==> crate::bodies::schema_view_fits(
                    crate::metadata::meta_schema_view(
                        (#[trigger] commands@[j]).metadata.command_meta,
                    ),
                    META_ARG_RECORD_SIZE as int,
                ),
            forall|j: int|
                0 <= j < i ==> crate::bodies::schema_view_fits(
                    crate::bodies::effective_schema_view(#[trigger] commands@[j]),
                    SCHEMA_ARG_RECORD_SIZE as int,
                ),
        decreases n - i,
    {
        let m = &commands[i].metadata.command_meta;
        let ghost mv = crate::metadata::meta_schema_view(commands@[i as int].metadata.command_meta);
        proof {
            assert(mv.aliases.len() == m.aliases@.len());
            assert(mv.examples.len() == m.examples@.len());
            assert(mv.args.len() == m.args@.len());
        }
        if m.aliases.len() > 268435455 || m.examples.len() > 268435455 {
            proof {
                assert(!crate::bodies::schema_view_fits(mv, META_ARG_RECORD_SIZE as int))
                    by (nonlinear_arith)
                    requires
                        mv.aliases.len() >= 268435456 || mv.examples.len() >= 268435456,
                ;
            }
            return false;
        }
        match &commands[i].metadata.command_schema {
            None => {
                if m.args.len() > 17318416 {
                    // the wider schema stride binds first
                    proof {
                        if m.args.len() <= 29826161 {
                            assert(!crate::bodies::schema_view_fits(
                                mv,
                                SCHEMA_ARG_RECORD_SIZE as int,
                            )) by (nonlinear_arith)
                                requires
                                    mv.args.len() >= 17318417,
                            ;
                        } else {
                            assert(!crate::bodies::schema_view_fits(
                                mv,
                                META_ARG_RECORD_SIZE as int,
                            )) by (nonlinear_arith)
                                requires
                                    mv.args.len() >= 29826162,
                            ;
                        }
                    }
                    return false;
                }
                proof {
                    assert(mv.aliases.len() * 8 <= IMM_LIMIT && mv.examples.len() * 8 <= IMM_LIMIT
                        && mv.args.len() * 72 <= IMM_LIMIT && mv.args.len() * 124 <= IMM_LIMIT)
                        by (nonlinear_arith)
                        requires
                            mv.aliases.len() <= 268435455,
                            mv.examples.len() <= 268435455,
                            mv.args.len() <= 17318416,
                    ;
                    assert forall|k: int| 0 <= k < mv.args.len() implies
                        crate::bodies::arg_view_fits(#[trigger] mv.args[k]) by {
                        assert(mv.args[k] == crate::metadata::arg_def_view(
                            commands@[i as int].metadata.command_meta.args@[k],
                        ));
                    }
                    assert(crate::bodies::effective_schema_view(commands@[i as int]) == mv);
                }
            },
            Some(schema) => {
                if m.args.len() > 29826161 {
                    proof {
                        assert(!crate::bodies::schema_view_fits(mv, META_ARG_RECORD_SIZE as int))
                            by (nonlinear_arith)
                            requires
                                mv.args.len() >= 29826162,
                        ;
                    }
                    return false;
                }
                let ghost sv = crate::metadata::schema_view(*schema);
                proof {
                    assert(crate::bodies::effective_schema_view(commands@[i as int]) == sv);
                    assert(sv.aliases.len() == schema.aliases@.len());
                    assert(sv.examples.len() == schema.examples@.len());
                    assert(sv.args.len() == schema.args@.len());
                }
                if schema.aliases.len() > 268435455 || schema.examples.len() > 268435455
                    || schema.args.len() > 17318416 {
                    proof {
                        assert(!crate::bodies::schema_view_fits(sv, SCHEMA_ARG_RECORD_SIZE as int))
                            by (nonlinear_arith)
                            requires
                                sv.aliases.len() >= 268435456 || sv.examples.len() >= 268435456
                                    || sv.args.len() >= 17318417,
                        ;
                    }
                    return false;
                }
                let na = schema.args.len();
                let mut k: usize = 0;
                while k < na
                    invariant
                        0 <= k <= na,
                        na == schema.args@.len(),
                        forall|q: int|
                            0 <= q < k ==> crate::bodies::arg_view_fits(
                                crate::metadata::arg_schema_view(#[trigger] schema.args@[q]),
                            ),
                    decreases na - k,
                {
                    let a = &schema.args[k];
                    let ghost av = crate::metadata::arg_schema_view(schema.args@[k as int]);
                    proof {
                        assert(av.possible_values.len() == a.possible_values@.len());
                        assert(av.conflicts_with.len() == a.conflicts_with@.len());
                        assert(av.requires.len() == a.requires@.len());
                    }
                    if a.possible_values.len() > 268435455 || a.conflicts_with.len() > 268435455
                        || a.requires.len() > 268435455 {
                        proof {
                            assert(!crate::bodies::arg_view_fits(av)) by (nonlinear_arith)
                                requires
                                    av.possible_values.len() >= 268435456
                                        || av.conflicts_with.len() >= 268435456
                                        || av.requires.len() >= 268435456,
                            ;
                            assert(sv.args[k as int] == av);
                            if crate::bodies::schema_view_fits(
                                sv,
                                SCHEMA_ARG_RECORD_SIZE as int,
                            ) {
                                assert(crate::bodies::arg_view_fits(sv.args[k as int]));
                            }
                        }
                        return false;
                    }
                    proof {
                        assert(crate::bodies::arg_view_fits(av)) by (nonlinear_arith)
                            requires
                                av.possible_values.len() <= 268435455,
                                av.conflicts_with.len() <= 268435455,
                                av.requires.len() <= 268435455,
                        ;
                    }
                    k = k + 1;
                }
                proof {
                    assert(mv.args.len() * 72 <= IMM_LIMIT && mv.aliases.len() * 8 <= IMM_LIMIT
                        && mv.examples.len() * 8 <= IMM_LIMIT) by (nonlinear_arith)
                        requires
                            mv.aliases.len() <= 268435455,
                            mv.examples.len() <= 268435455,
                            mv.args.len() <= 29826161,
                    ;
                    assert forall|q: int| 0 <= q < mv.args.len() implies
                        crate::bodies::arg_view_fits(#[trigger] mv.args[q]) by {
                        assert(mv.args[q] == crate::metadata::arg_def_view(
                            commands@[i as int].metadata.command_meta.args@[q],
                        ));
                    }
                    assert(sv.aliases.len() * 8 <= IMM_LIMIT && sv.examples.len() * 8 <= IMM_LIMIT
                        && sv.args.len() * 124 <= IMM_LIMIT) by (nonlinear_arith)
                        requires
                            sv.aliases.len() <= 268435455,
                            sv.examples.len() <= 268435455,
                            sv.args.len() <= 17318416,
                    ;
                    assert forall|q: int| 0 <= q < sv.args.len() implies
                        crate::bodies::arg_view_fits(#[trigger] sv.args[q]) by {
                        assert(sv.args[q] == crate::metadata::arg_schema_view(schema.args@[q]));
                    }
                }
            },
        }
        i = i + 1;
    }
    true
}

/// Generate the registry artifact, guarding the layout bounds first: a
/// descriptor set whose element counts or interned bytes cannot be laid out
/// in one addressable linear memory is refused rather than truncated.
pub fn generate_registry(commands: &Vec<CommandInfo>, app: &AppMeta) -> (r: Result<
    Vec<u8>,
    String,
>)
    ensures
        (r is Ok) == (gen_fits(commands@, *app) && spec_generate(commands@, *app) is Some),
        r is Ok ==> Some(r->Ok_0@) == spec_generate(commands@, *app),
{
    if !check_counts(commands) {
        return Err("command descriptors exceed the addressable layout bounds".to_owned());
    }
    if !check_table_bound(commands, app) {
        return Err("interned descriptor strings exceed the addressable table bound".to_owned());
    }
    generate_registry_wat(commands, app)
}

} // verus!
