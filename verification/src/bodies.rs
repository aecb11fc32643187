//! The layout encoder: instruction sequences that write each record kind at
//! its declared byte offsets.
//!
//! Record sizes and field offsets are declared once here; both the emitted
//! stores and the contracts read them from the same table, so the two cannot
//! drift apart.

use vstd::prelude::*;
use crate::emit::{push_instr, iv, Instr, InstrV, Local};
use crate::metadata::{ArgView, SchemaView, arg_def_view, arg_schema_view, meta_schema_view,
    schema_view};
use crate::scan::{command_ident, CommandInfo, spec_run_symbol};
use crate::strtab::{spec_get, StringTable, TableModel};

verus! {

/// Byte size of one command record.
pub const CMD_RECORD_SIZE: u32 = 68;

/// Byte size of one string element (pointer and length).
pub const STR_ELEM_SIZE: u32 = 8;

/// Byte size of one argument record in the compact listing.
pub const META_ARG_RECORD_SIZE: u32 = 72;

/// Byte size of one argument record in the schema listing.
pub const SCHEMA_ARG_RECORD_SIZE: u32 = 124;

/// Byte size of the application-metadata record.
pub const APP_META_RECORD_SIZE: u32 = 24;

/// Largest value an emitted immediate may take.
pub const IMM_LIMIT: u32 = 0x7fff_ffff;

/// The application descriptor: name, version and description of the tool
/// being assembled.
#[derive(Debug, Clone)]
pub struct AppMeta {
    pub name: String,
    pub version: String,
    pub description: String,
}

impl Default for AppMeta {
    /// The all-empty application descriptor.
    fn default() -> (d: AppMeta)
        ensures
            d.name@ == Seq::<char>::empty(),
            d.version@ == Seq::<char>::empty(),
            d.description@ == Seq::<char>::empty(),
    {
        AppMeta { name: String::new(), version: String::new(), description: String::new() }
    }
}

/// The location of an optional string: the sentinel when absent.
pub open spec fn opt_loc(t: TableModel, v: Option<Seq<char>>) -> (u32, u32) {
    match v {
        Some(s) => spec_get(t, s),
        None => (0u32, 0u32),
    }
}

/// Allocate `n` bytes and keep the pointer in `dst`.
pub open spec fn spec_alloc_to(n: u32, dst: Local) -> Seq<InstrV> {
    seq![InstrV::ConstI32(n), InstrV::CallAlloc, InstrV::LocalSet(dst)]
}

/// Store the immediate `v` at `base + off`.
pub open spec fn spec_store_const(base: Local, off: u32, v: u32) -> Seq<InstrV> {
    seq![InstrV::LocalGet(base), InstrV::ConstI32(v), InstrV::Store { offset: off }]
}

/// Store the local `src` at `base + off`.
pub open spec fn spec_store_local(base: Local, off: u32, src: Local) -> Seq<InstrV> {
    seq![InstrV::LocalGet(base), InstrV::LocalGet(src), InstrV::Store { offset: off }]
}

/// Store a flag byte at `base + off`.
pub open spec fn spec_store8_flag(base: Local, off: u32, flag: bool) -> Seq<InstrV> {
    seq![
        InstrV::LocalGet(base),
        InstrV::ConstI32(if flag { 1u32 } else { 0u32 }),
        InstrV::Store8 { offset: off },
    ]
}

/// Point `dst` at `base + off`.
pub open spec fn spec_field_ptr(base: Local, off: u32, dst: Local) -> Seq<InstrV> {
    seq![
        InstrV::LocalGet(base),
        InstrV::ConstI32(off),
        InstrV::Add,
        InstrV::LocalSet(dst),
    ]
}

/// Store a string location: pointer at `off`, length at `off + 4`.
pub open spec fn spec_str_pair(base: Local, off: u32, loc: (u32, u32)) -> Seq<InstrV> {
    spec_store_const(base, off, loc.0) + spec_store_const(base, (off + 4) as u32, loc.1)
}

/// Store an optional string: a presence byte at `off`, then the pointer and
/// length at `off + 4` and `off + 8`; an absent value zeroes all three.
pub open spec fn spec_opt_str(base: Local, off: u32, v: Option<Seq<char>>, t: TableModel) -> Seq<
    InstrV,
> {
    spec_store8_flag(base, off, v is Some) + spec_str_pair(base, (off + 4) as u32, opt_loc(t, v))
}

/// The element writes of a list of strings at stride `STR_ELEM_SIZE`.
pub open spec fn spec_str_entries(tmp: Local, values: Seq<Seq<char>>, t: TableModel) -> Seq<
    InstrV,
>
    decreases values.len(),
{
    if values.len() == 0 {
        Seq::empty()
    } else {
        let j = values.len() - 1;
        let loc = spec_get(t, values.last());
        spec_str_entries(tmp, values.drop_last(), t) + seq![
            InstrV::LocalGet(tmp),
            InstrV::ConstI32((j * 8) as u32),
            InstrV::Add,
            InstrV::ConstI32(loc.0),
            InstrV::Store { offset: 0 },
            InstrV::LocalGet(tmp),
            InstrV::ConstI32((j * 8) as u32),
            InstrV::Add,
            InstrV::ConstI32(loc.1),
            InstrV::Store { offset: 4 },
        ]
    }
}

/// A list-of-strings field: an empty list zeroes the pointer and count; a
/// nonempty one allocates the element array, records it, and writes each
/// element.
pub open spec fn spec_str_list(
    base: Local,
    ptr_off: u32,
    len_off: u32,
    tmp: Local,
    values: Seq<Seq<char>>,
    t: TableModel,
) -> Seq<InstrV> {
    if values.len() == 0 {
        spec_store_const(base, ptr_off, 0) + spec_store_const(base, len_off, 0)
    } else {
        spec_alloc_to((values.len() * 8) as u32, tmp) + spec_store_local(base, ptr_off, tmp)
            + spec_store_const(base, len_off, values.len() as u32) + spec_str_entries(
            tmp,
            values,
            t,
        )
    }
}

fn emit_alloc_to(out: &mut Vec<Instr>, n: u32, dst: Local)
    ensures
        iv(final(out)@) == iv(old(out)@) + spec_alloc_to(n, dst),
{
    push_instr(out, Instr::ConstI32(n));
    push_instr(out, Instr::CallAlloc);
    push_instr(out, Instr::LocalSet(dst));
    proof {
        assert(iv(out@) =~= iv(old(out)@) + spec_alloc_to(n, dst));
    }
}

fn emit_store_const(out: &mut Vec<Instr>, base: Local, off: u32, v: u32)
    ensures
        iv(final(out)@) == iv(old(out)@) + spec_store_const(base, off, v),
{
    push_instr(out, Instr::LocalGet(base));
    push_instr(out, Instr::ConstI32(v));
    push_instr(out, Instr::Store { offset: off });
    proof {
        assert(iv(out@) =~= iv(old(out)@) + spec_store_const(base, off, v));
    }
}

fn emit_store_local(out: &mut Vec<Instr>, base: Local, off: u32, src: Local)
    ensures
        iv(final(out)@) == iv(old(out)@) + spec_store_local(base, off, src),
{
    push_instr(out, Instr::LocalGet(base));
    push_instr(out, Instr::LocalGet(src));
    push_instr(out, Instr::Store { offset: off });
    proof {
        assert(iv(out@) =~= iv(old(out)@) + spec_store_local(base, off, src));
    }
}

fn emit_store8_flag(out: &mut Vec<Instr>, base: Local, off: u32, flag: bool)
    ensures
        iv(final(out)@) == iv(old(out)@) + spec_store8_flag(base, off, flag),
{
    push_instr(out, Instr::LocalGet(base));
    if flag {
        push_instr(out, Instr::ConstI32(1));
    } else {
        push_instr(out, Instr::ConstI32(0));
    }
    push_instr(out, Instr::Store8 { offset: off });
    proof {
        assert(iv(out@) =~= iv(old(out)@) + spec_store8_flag(base, off, flag));
    }
}

fn emit_field_ptr(out: &mut Vec<Instr>, base: Local, off: u32, dst: Local)
    ensures
        iv(final(out)@) == iv(old(out)@) + spec_field_ptr(base, off, dst),
{
    push_instr(out, Instr::LocalGet(base));
    push_instr(out, Instr::ConstI32(off));
    push_instr(out, Instr::Add);
    push_instr(out, Instr::LocalSet(dst));
    proof {
        assert(iv(out@) =~= iv(old(out)@) + spec_field_ptr(base, off, dst));
    }
}

fn emit_str_pair(out: &mut Vec<Instr>, base: Local, off: u32, loc: (u32, u32))
    requires
        off + 4 <= u32::MAX,
    ensures
        iv(final(out)@) == iv(old(out)@) + spec_str_pair(base, off, loc),
{
    emit_store_const(out, base, off, loc.0);
    emit_store_const(out, base, off + 4, loc.1);
    proof {
        assert(iv(out@) =~= iv(old(out)@) + spec_str_pair(base, off, loc));
    }
}

fn emit_opt_str(
    out: &mut Vec<Instr>,
    base: Local,
    off: u32,
    v: &Option<String>,
    strings: &StringTable,
)
    requires
        off + 8 <= u32::MAX,
        strings.wf(),
    ensures
        iv(final(out)@) == iv(old(out)@) + spec_opt_str(base, off, v.deep_view(), strings@),
{
    let loc: (u32, u32) = match v {
        Some(s) => strings.get(s.as_str()),
        None => (0u32, 0u32),
    };
    emit_store8_flag(out, base, off, v.is_some());
    emit_str_pair(out, base, off + 4, loc);
    proof {
        assert(loc == opt_loc(strings@, v.deep_view()));
        assert(iv(out@) =~= iv(old(out)@) + spec_opt_str(base, off, v.deep_view(), strings@));
    }
}

#[verifier::loop_isolation(false)]
#[verifier::rlimit(60)]
fn emit_str_list(
    out: &mut Vec<Instr>,
    base: Local,
    ptr_off: u32,
    len_off: u32,
    tmp: Local,
    values: &Vec<String>,
    strings: &StringTable,
)
    requires
        values@.len() * 8 <= IMM_LIMIT,
        strings.wf(),
    ensures
        iv(final(out)@) == iv(old(out)@) + spec_str_list(
            base,
            ptr_off,
            len_off,
            tmp,
            values.deep_view(),
            strings@,
        ),
{
    let n = values.len();
    if n == 0 {
        emit_store_const(out, base, ptr_off, 0);
        emit_store_const(out, base, len_off, 0);
        proof {
            assert(iv(out@) =~= iv(old(out)@) + spec_str_list(
                base,
                ptr_off,
                len_off,
                tmp,
                values.deep_view(),
                strings@,
            ));
        }
        return ;
    }
    proof {
        assert((n * 8) as int == values.deep_view().len() * 8) by (nonlinear_arith)
            requires
                n == values.deep_view().len(),
        ;
    }
    let bytes: u32 = (n as u32) * 8;
    emit_alloc_to(out, bytes, tmp);
    emit_store_local(out, base, ptr_off, tmp);
    emit_store_const(out, base, len_off, n as u32);
    let ghost mid = iv(out@);
    let mut j: usize = 0;
    proof {
        assert(values.deep_view().take(0) =~= Seq::<Seq<char>>::empty());
    }
    while j < n
        invariant
            0 <= j <= n,
            iv(out@) == mid + spec_str_entries(tmp, values.deep_view().take(j as int), strings@),
        decreases n - j,
    {
        proof {
            assert((j * 8) as int <= (n - 1) * 8 <= IMM_LIMIT) by (nonlinear_arith)
                requires
                    0 <= j < n,
                    n * 8 <= IMM_LIMIT,
            ;
        }
        let entry_off: u32 = (j as u32) * 8;
        let loc = strings.get(values[j].as_str());
        push_instr(out, Instr::LocalGet(tmp));
        push_instr(out, Instr::ConstI32(entry_off));
        push_instr(out, Instr::Add);
        push_instr(out, Instr::ConstI32(loc.0));
        push_instr(out, Instr::Store { offset: 0 });
        push_instr(out, Instr::LocalGet(tmp));
        push_instr(out, Instr::ConstI32(entry_off));
        push_instr(out, Instr::Add);
        push_instr(out, Instr::ConstI32(loc.1));
        push_instr(out, Instr::Store { offset: 4 });
        proof {
            let vs = values.deep_view();
            assert(vs.take(j + 1).drop_last() =~= vs.take(j as int));
            assert(vs.take(j + 1).last() == vs[j as int]);
            assert(iv(out@) =~= mid + spec_str_entries(tmp, vs.take(j + 1), strings@));
        }
        j = j + 1;
    }
    proof {
        assert(values.deep_view().take(n as int) =~= values.deep_view());
        assert(iv(out@) =~= iv(old(out)@) + spec_str_list(
            base,
            ptr_off,
            len_off,
            tmp,
            values.deep_view(),
            strings@,
        ));
    }
}

/// The body of `get-app-meta`: one fixed-size record holding the three
/// application strings, returned by pointer.
pub open spec fn spec_app_meta_body(app: AppMeta, t: TableModel) -> Seq<InstrV> {
    spec_alloc_to(APP_META_RECORD_SIZE, Local::ResultPtr) + seq![InstrV::Blank] + spec_str_pair(
        Local::ResultPtr,
        0,
        spec_get(t, app.name@),
    ) + spec_str_pair(Local::ResultPtr, 8, spec_get(t, app.version@)) + spec_str_pair(
        Local::ResultPtr,
        16,
        spec_get(t, app.description@),
    ) + seq![InstrV::Blank, InstrV::LocalGet(Local::ResultPtr)]
}

/// Build the `get-app-meta` body.
pub fn build_app_meta_body(app: &AppMeta, strings: &StringTable) -> (out: Vec<Instr>)
    requires
        strings.wf(),
    ensures
        iv(out@) == spec_app_meta_body(*app, strings@),
{
    let mut out: Vec<Instr> = Vec::new();
    emit_alloc_to(&mut out, APP_META_RECORD_SIZE, Local::ResultPtr);
    push_instr(&mut out, Instr::Blank);
    let name_loc = strings.get(app.name.as_str());
    let version_loc = strings.get(app.version.as_str());
    let desc_loc = strings.get(app.description.as_str());
    emit_str_pair(&mut out, Local::ResultPtr, 0, name_loc);
    emit_str_pair(&mut out, Local::ResultPtr, 8, version_loc);
    emit_str_pair(&mut out, Local::ResultPtr, 16, desc_loc);
    push_instr(&mut out, Instr::Blank);
    push_instr(&mut out, Instr::LocalGet(Local::ResultPtr));
    proof {
        assert(iv(out@) =~= spec_app_meta_body(*app, strings@));
    }
    out
}

/// One dispatch candidate in the `run` body: compare the called name with
/// the candidate string; on a match, allocate the result slot, invoke the
/// command's imported run entry through the out-pointer, and return.
pub open spec fn spec_run_candidate(cand_loc: (u32, u32), sym: Seq<char>) -> Seq<InstrV> {
    seq![
        InstrV::LocalGet(Local::NamePtr),
        InstrV::LocalGet(Local::NameLen),
        InstrV::ConstI32(cand_loc.0),
        InstrV::ConstI32(cand_loc.1),
        InstrV::CallMatchName,
        InstrV::If,
        InstrV::ConstI32(16),
        InstrV::CallAlloc,
        InstrV::LocalSet(Local::RetPtr),
        InstrV::LocalGet(Local::ArgvPtr),
        InstrV::LocalGet(Local::ArgvLen),
        InstrV::LocalGet(Local::RetPtr),
        InstrV::CallRun(sym),
        InstrV::LocalGet(Local::RetPtr),
        InstrV::Return,
        InstrV::End,
        InstrV::Blank,
    ]
}

/// The candidates of one command: its canonical name, then each alias, in
/// declaration order, all dispatching to the same imported entry.
pub open spec fn spec_run_command(c: CommandInfo, t: TableModel) -> Seq<InstrV> {
    spec_run_candidate(spec_get(t, c.metadata.command_meta.name@), spec_run_symbol(c.name@))
        + spec_run_aliases(
        c.metadata.command_meta.aliases.deep_view(),
        spec_run_symbol(c.name@),
        t,
    )
}

/// The alias candidates of one command.
pub open spec fn spec_run_aliases(aliases: Seq<Seq<char>>, sym: Seq<char>, t: TableModel) -> Seq<
    InstrV,
>
    decreases aliases.len(),
{
    if aliases.len() == 0 {
        Seq::empty()
    } else {
        spec_run_aliases(aliases.drop_last(), sym, t) + spec_run_candidate(
            spec_get(t, aliases.last()),
            sym,
        )
    }
}

/// The guarded blocks of every command, in discovery order: the first
/// matching candidate wins.
pub open spec fn spec_run_commands(cmds: Seq<CommandInfo>, t: TableModel) -> Seq<InstrV>
    decreases cmds.len(),
{
    if cmds.len() == 0 {
        Seq::empty()
    } else {
        spec_run_commands(cmds.drop_last(), t) + spec_run_command(cmds.last(), t)
    }
}

/// The fallback when nothing matched: a structured unknown-command result
/// embedding the caller's own name pointer and length.
pub open spec fn spec_run_fallback() -> Seq<InstrV> {
    seq![
        InstrV::ConstI32(16),
        InstrV::CallAlloc,
        InstrV::LocalSet(Local::RetPtr),
        InstrV::LocalGet(Local::RetPtr),
        InstrV::ConstI32(1),
        InstrV::Store { offset: 0 },
        InstrV::LocalGet(Local::RetPtr),
        InstrV::ConstI32(0),
        InstrV::Store { offset: 4 },
        InstrV::LocalGet(Local::RetPtr),
        InstrV::LocalGet(Local::NamePtr),
        InstrV::Store { offset: 8 },
        InstrV::LocalGet(Local::RetPtr),
        InstrV::LocalGet(Local::NameLen),
        InstrV::Store { offset: 12 },
        InstrV::LocalGet(Local::RetPtr),
    ]
}

/// The whole `run` body: every command's candidates in discovery order,
/// then the unknown-command fallback.
pub open spec fn spec_run_body(cmds: Seq<CommandInfo>, t: TableModel) -> Seq<InstrV> {
    spec_run_commands(cmds, t) + spec_run_fallback()
}

fn emit_run_candidate(out: &mut Vec<Instr>, cand_loc: (u32, u32), sym: &String)
    ensures
        iv(final(out)@) == iv(old(out)@) + spec_run_candidate(cand_loc, sym@),
{
    push_instr(out, Instr::LocalGet(Local::NamePtr));
    push_instr(out, Instr::LocalGet(Local::NameLen));
    push_instr(out, Instr::ConstI32(cand_loc.0));
    push_instr(out, Instr::ConstI32(cand_loc.1));
    push_instr(out, Instr::CallMatchName);
    push_instr(out, Instr::If);
    push_instr(out, Instr::ConstI32(16));
    push_instr(out, Instr::CallAlloc);
    push_instr(out, Instr::LocalSet(Local::RetPtr));
    push_instr(out, Instr::LocalGet(Local::ArgvPtr));
    push_instr(out, Instr::LocalGet(Local::ArgvLen));
    push_instr(out, Instr::LocalGet(Local::RetPtr));
    push_instr(out, Instr::CallRun(sym.clone()));
    push_instr(out, Instr::LocalGet(Local::RetPtr));
    push_instr(out, Instr::Return);
    push_instr(out, Instr::End);
    push_instr(out, Instr::Blank);
    proof {
        assert(iv(out@) =~= iv(old(out)@) + spec_run_candidate(cand_loc, sym@));
    }
}

/// Build the `run` dispatcher body: first match wins, in discovery order,
/// the canonical name before the aliases of each command; no match yields
/// the unknown-command result carrying the offending name.
#[verifier::loop_isolation(false)]
pub fn build_run_body(commands: &Vec<CommandInfo>, strings: &StringTable) -> (out: Vec<Instr>)
    requires
        strings.wf(),
    ensures
        iv(out@) == spec_run_body(commands@, strings@),
{
    let mut out: Vec<Instr> = Vec::new();
    let n = commands.len();
    let mut i: usize = 0;
    proof {
        assert(commands@.take(0) =~= Seq::<CommandInfo>::empty());
        assert(iv(out@) =~= spec_run_commands(commands@.take(0), strings@));
    }
    while i < n
        invariant
            0 <= i <= n,
            iv(out@) == spec_run_commands(commands@.take(i as int), strings@),
        decreases n - i,
    {
        let cmd = &commands[i];
        let mut sym = command_ident(cmd.name.as_str());
        sym.append("_run");
        let name_loc = strings.get(cmd.metadata.command_meta.name.as_str());
        emit_run_candidate(&mut out, name_loc, &sym);
        let ghost cmd_start = iv(out@);
        let na = cmd.metadata.command_meta.aliases.len();
        let mut j: usize = 0;
        proof {
            assert(cmd.metadata.command_meta.aliases.deep_view().take(0) =~= Seq::<
                Seq<char>,
            >::empty());
        }
        while j < na
            invariant
                0 <= j <= na,
                iv(out@) == cmd_start + spec_run_aliases(
                    cmd.metadata.command_meta.aliases.deep_view().take(j as int),
                    sym@,
                    strings@,
                ),
            decreases na - j,
        {
            let alias_loc = strings.get(cmd.metadata.command_meta.aliases[j].as_str());
            emit_run_candidate(&mut out, alias_loc, &sym);
            proof {
                let als = cmd.metadata.command_meta.aliases.deep_view();
                assert(als.take(j + 1).drop_last() =~= als.take(j as int));
                assert(als.take(j + 1).last() == als[j as int]);
                assert(iv(out@) =~= cmd_start + spec_run_aliases(
                    als.take(j + 1),
                    sym@,
                    strings@,
                ));
            }
            j = j + 1;
        }
        proof {
            let als = cmd.metadata.command_meta.aliases.deep_view();
            assert(als.take(na as int) =~= als);
            assert(sym@ == spec_run_symbol(cmd.name@));
            assert(commands@.take(i + 1).drop_last() =~= commands@.take(i as int));
            assert(commands@.take(i + 1).last() == commands@[i as int]);
            assert(iv(out@) =~= spec_run_commands(commands@.take(i + 1), strings@));
        }
        i = i + 1;
    }
    proof {
        assert(commands@.take(n as int) =~= commands@);
    }
    push_instr(&mut out, Instr::ConstI32(16));
    push_instr(&mut out, Instr::CallAlloc);
    push_instr(&mut out, Instr::LocalSet(Local::RetPtr));
    emit_store_const(&mut out, Local::RetPtr, 0, 1);
    emit_store_const(&mut out, Local::RetPtr, 4, 0);
    emit_store_local(&mut out, Local::RetPtr, 8, Local::NamePtr);
    emit_store_local(&mut out, Local::RetPtr, 12, Local::NameLen);
    push_instr(&mut out, Instr::LocalGet(Local::RetPtr));
    proof {
        assert(iv(out@) =~= spec_run_body(commands@, strings@));
    }
    out
}

/// How far the element counts of one record may reach so that every emitted
/// immediate fits: each variable-length field is `count` times its stride.
pub open spec fn arg_view_fits(a: ArgView) -> bool {
    &&& a.possible_values.len() * 8 <= IMM_LIMIT
    &&& a.conflicts_with.len() * 8 <= IMM_LIMIT
    &&& a.requires.len() * 8 <= IMM_LIMIT
}

pub open spec fn schema_view_fits(s: SchemaView, arg_stride: int) -> bool {
    &&& s.aliases.len() * 8 <= IMM_LIMIT
    &&& s.examples.len() * 8 <= IMM_LIMIT
    &&& s.args.len() * arg_stride <= IMM_LIMIT
    &&& forall|i: int| 0 <= i < s.args.len() ==> arg_view_fits(#[trigger] s.args[i])
}

/// The schema a command contributes to `list-schemas`: its embedded rich
/// schema when present, the widening of its compact metadata otherwise.
pub open spec fn effective_schema_view(c: CommandInfo) -> SchemaView {
    match c.metadata.command_schema {
        Some(s) => schema_view(s),
        None => meta_schema_view(c.metadata.command_meta),
    }
}

/// Every emitted immediate of both listing bodies fits.
pub open spec fn commands_fit(cmds: Seq<CommandInfo>) -> bool {
    &&& cmds.len() * CMD_RECORD_SIZE <= IMM_LIMIT
    &&& forall|i: int|
        0 <= i < cmds.len() ==> schema_view_fits(
            meta_schema_view((#[trigger] cmds[i]).metadata.command_meta),
            META_ARG_RECORD_SIZE as int,
        )
    &&& forall|i: int|
        0 <= i < cmds.len() ==> schema_view_fits(
            effective_schema_view(#[trigger] cmds[i]),
            SCHEMA_ARG_RECORD_SIZE as int,
        )
}

/// The header both listing bodies share: allocate the returned
/// `(pointer, count)` pair, allocate the record array, and record both.
pub open spec fn spec_list_header(count: int) -> Seq<InstrV> {
    spec_alloc_to(8, Local::ResultPtr) + seq![InstrV::Blank] + spec_alloc_to(
        (count * CMD_RECORD_SIZE) as u32,
        Local::ListPtr,
    ) + seq![InstrV::Blank] + spec_store_local(Local::ResultPtr, 0, Local::ListPtr)
        + spec_store_const(Local::ResultPtr, 4, count as u32)
}

/// Both listing bodies end by returning the result pointer.
pub open spec fn spec_list_tail() -> Seq<InstrV> {
    seq![InstrV::Blank, InstrV::LocalGet(Local::ResultPtr)]
}

/// One argument record of the compact listing, at its stride inside the
/// argument array.
pub open spec fn spec_meta_arg(j: int, a: ArgView, t: TableModel) -> Seq<InstrV> {
    seq![InstrV::Blank] + spec_field_ptr(
        Local::ArgsPtr,
        (j * META_ARG_RECORD_SIZE) as u32,
        Local::ArgPtr,
    ) + spec_str_pair(Local::ArgPtr, 0, spec_get(t, a.name)) + spec_opt_str(
        Local::ArgPtr,
        8,
        a.short,
        t,
    ) + spec_opt_str(Local::ArgPtr, 20, a.long, t) + spec_str_pair(
        Local::ArgPtr,
        32,
        spec_get(t, a.help),
    ) + spec_store8_flag(Local::ArgPtr, 40, a.required) + spec_opt_str(
        Local::ArgPtr,
        44,
        a.default_value,
        t,
    ) + spec_opt_str(Local::ArgPtr, 56, a.value_name, t) + spec_store8_flag(
        Local::ArgPtr,
        68,
        a.takes_value,
    )
}

pub open spec fn spec_meta_args(args: Seq<ArgView>, t: TableModel) -> Seq<InstrV>
    decreases args.len(),
{
    if args.len() == 0 {
        Seq::empty()
    } else {
        spec_meta_args(args.drop_last(), t) + spec_meta_arg(args.len() - 1, args.last(), t)
    }
}

/// The argument-array field of one compact record.
pub open spec fn spec_meta_args_list(args: Seq<ArgView>, t: TableModel) -> Seq<InstrV> {
    if args.len() == 0 {
        spec_store_const(Local::RecordPtr, 60, 0) + spec_store_const(Local::RecordPtr, 64, 0)
    } else {
        spec_alloc_to((args.len() * META_ARG_RECORD_SIZE) as u32, Local::ArgsPtr)
            + spec_store_local(Local::RecordPtr, 60, Local::ArgsPtr) + spec_store_const(
            Local::RecordPtr,
            64,
            args.len() as u32,
        ) + spec_meta_args(args, t)
    }
}

/// One command record of the compact listing.
pub open spec fn spec_meta_record(i: int, s: SchemaView, t: TableModel) -> Seq<InstrV> {
    seq![InstrV::Blank] + spec_field_ptr(
        Local::ListPtr,
        (i * CMD_RECORD_SIZE) as u32,
        Local::RecordPtr,
    ) + spec_str_pair(Local::RecordPtr, 0, spec_get(t, s.name)) + spec_str_pair(
        Local::RecordPtr,
        8,
        spec_get(t, s.summary),
    ) + spec_str_pair(Local::RecordPtr, 16, spec_get(t, s.usage)) + spec_str_list(
        Local::RecordPtr,
        24,
        28,
        Local::AliasesPtr,
        s.aliases,
        t,
    ) + spec_str_pair(Local::RecordPtr, 32, spec_get(t, s.version)) + spec_store8_flag(
        Local::RecordPtr,
        40,
        s.hidden,
    ) + spec_str_pair(Local::RecordPtr, 44, spec_get(t, s.description)) + spec_str_list(
        Local::RecordPtr,
        52,
        56,
        Local::ExamplesPtr,
        s.examples,
        t,
    ) + spec_meta_args_list(s.args, t)
}

pub open spec fn spec_meta_records(views: Seq<SchemaView>, t: TableModel) -> Seq<InstrV>
    decreases views.len(),
{
    if views.len() == 0 {
        Seq::empty()
    } else {
        spec_meta_records(views.drop_last(), t) + spec_meta_record(
            views.len() - 1,
            views.last(),
            t,
        )
    }
}

/// The body of `list-commands`: the shared header, one compact record per
/// command in discovery order, and the returned pointer.
pub open spec fn spec_list_commands_body(cmds: Seq<CommandInfo>, t: TableModel) -> Seq<InstrV> {
    spec_list_header(cmds.len() as int) + spec_meta_records(
        cmds.map_values(|c: CommandInfo| meta_schema_view(c.metadata.command_meta)),
        t,
    ) + spec_list_tail()
}

/// One argument record of the schema listing, with the larger stride and
/// the schema-only fields.
pub open spec fn spec_schema_arg(j: int, a: ArgView, t: TableModel) -> Seq<InstrV> {
    seq![InstrV::Blank] + spec_field_ptr(
        Local::ArgsPtr,
        (j * SCHEMA_ARG_RECORD_SIZE) as u32,
        Local::ArgPtr,
    ) + spec_str_pair(Local::ArgPtr, 0, spec_get(t, a.name)) + spec_opt_str(
        Local::ArgPtr,
        8,
        a.short,
        t,
    ) + spec_opt_str(Local::ArgPtr, 20, a.long, t) + spec_str_pair(
        Local::ArgPtr,
        32,
        spec_get(t, a.help),
    ) + spec_store8_flag(Local::ArgPtr, 40, a.required) + spec_opt_str(
        Local::ArgPtr,
        44,
        a.default_value,
        t,
    ) + spec_opt_str(Local::ArgPtr, 56, a.env, t) + spec_opt_str(
        Local::ArgPtr,
        68,
        a.value_name,
        t,
    ) + spec_store8_flag(Local::ArgPtr, 80, a.takes_value) + spec_store8_flag(
        Local::ArgPtr,
        81,
        a.multiple,
    ) + spec_opt_str(Local::ArgPtr, 84, a.value_type, t) + spec_str_list(
        Local::ArgPtr,
        96,
        100,
        Local::ValuesPtr,
        a.possible_values,
        t,
    ) + spec_str_list(Local::ArgPtr, 104, 108, Local::ConflictsPtr, a.conflicts_with, t)
        + spec_str_list(Local::ArgPtr, 112, 116, Local::RequiresPtr, a.requires, t)
        + spec_store8_flag(Local::ArgPtr, 120, a.hidden)
}

pub open spec fn spec_schema_args(args: Seq<ArgView>, t: TableModel) -> Seq<InstrV>
    decreases args.len(),
{
    if args.len() == 0 {
        Seq::empty()
    } else {
        spec_schema_args(args.drop_last(), t) + spec_schema_arg(args.len() - 1, args.last(), t)
    }
}

/// The argument-array field of one schema record.
pub open spec fn spec_schema_args_list(args: Seq<ArgView>, t: TableModel) -> Seq<InstrV> {
    if args.len() == 0 {
        spec_store_const(Local::RecordPtr, 60, 0) + spec_store_const(Local::RecordPtr, 64, 0)
    } else {
        spec_alloc_to((args.len() * SCHEMA_ARG_RECORD_SIZE) as u32, Local::ArgsPtr)
            + spec_store_local(Local::RecordPtr, 60, Local::ArgsPtr) + spec_store_const(
            Local::RecordPtr,
            64,
            args.len() as u32,
        ) + spec_schema_args(args, t)
    }
}

/// One command record of the schema listing.
pub open spec fn spec_schema_record(i: int, s: SchemaView, t: TableModel) -> Seq<InstrV> {
    seq![InstrV::Blank] + spec_field_ptr(
        Local::ListPtr,
        (i * CMD_RECORD_SIZE) as u32,
        Local::RecordPtr,
    ) + spec_str_pair(Local::RecordPtr, 0, spec_get(t, s.name)) + spec_str_pair(
        Local::RecordPtr,
        8,
        spec_get(t, s.summary),
    ) + spec_str_pair(Local::RecordPtr, 16, spec_get(t, s.usage)) + spec_str_list(
        Local::RecordPtr,
        24,
        28,
        Local::AliasesPtr,
        s.aliases,
        t,
    ) + spec_str_pair(Local::RecordPtr, 32, spec_get(t, s.version)) + spec_store8_flag(
        Local::RecordPtr,
        40,
        s.hidden,
    ) + spec_str_pair(Local::RecordPtr, 44, spec_get(t, s.description)) + spec_str_list(
        Local::RecordPtr,
        52,
        56,
        Local::ExamplesPtr,
        s.examples,
        t,
    ) + spec_schema_args_list(s.args, t)
}

pub open spec fn spec_schema_records(views: Seq<SchemaView>, t: TableModel) -> Seq<InstrV>
    decreases views.len(),
{
    if views.len() == 0 {
        Seq::empty()
    } else {
        spec_schema_records(views.drop_last(), t) + spec_schema_record(
            views.len() - 1,
            views.last(),
            t,
        )
    }
}

/// The body of `list-schemas`: the shared header, one schema record per
/// command in discovery order (synthesized from the compact metadata where
/// the rich schema is absent), and the returned pointer.
pub open spec fn spec_list_schemas_body(cmds: Seq<CommandInfo>, t: TableModel) -> Seq<InstrV> {
    spec_list_header(cmds.len() as int) + spec_schema_records(
        cmds.map_values(|c: CommandInfo| effective_schema_view(c)),
        t,
    ) + spec_list_tail()
}

fn emit_list_header(out: &mut Vec<Instr>, count: usize)
    requires
        count * CMD_RECORD_SIZE <= IMM_LIMIT,
    ensures
        iv(final(out)@) == iv(old(out)@) + spec_list_header(count as int),
{
    proof {
        assert(count <= count * 68 && count * 68 <= IMM_LIMIT) by (nonlinear_arith)
            requires
                count * 68 <= IMM_LIMIT,
                count >= 0,
        ;
    }
    let list_bytes: u32 = (count as u32) * CMD_RECORD_SIZE;
    emit_alloc_to(out, 8, Local::ResultPtr);
    push_instr(out, Instr::Blank);
    emit_alloc_to(out, list_bytes, Local::ListPtr);
    push_instr(out, Instr::Blank);
    emit_store_local(out, Local::ResultPtr, 0, Local::ListPtr);
    emit_store_const(out, Local::ResultPtr, 4, count as u32);
    proof {
        assert(iv(out@) =~= iv(old(out)@) + spec_list_header(count as int));
    }
}

#[verifier::rlimit(60)]
fn emit_meta_arg(out: &mut Vec<Instr>, j: usize, a: &crate::metadata::ArgDef, strings: &StringTable)
    requires
        strings.wf(),
        (j + 1) * META_ARG_RECORD_SIZE <= IMM_LIMIT,
    ensures
        iv(final(out)@) == iv(old(out)@) + spec_meta_arg(j as int, arg_def_view(*a), strings@),
{
    proof {
        assert(j <= j * 72 && j * 72 <= IMM_LIMIT) by (nonlinear_arith)
            requires
                (j + 1) * 72 <= IMM_LIMIT,
                j >= 0,
        ;
    }
    let arg_off: u32 = (j as u32) * META_ARG_RECORD_SIZE;
    push_instr(out, Instr::Blank);
    emit_field_ptr(out, Local::ArgsPtr, arg_off, Local::ArgPtr);
    let name_loc = strings.get(a.name.as_str());
    emit_str_pair(out, Local::ArgPtr, 0, name_loc);
    emit_opt_str(out, Local::ArgPtr, 8, &a.short, strings);
    emit_opt_str(out, Local::ArgPtr, 20, &a.long, strings);
    let help_loc = strings.get(a.help.as_str());
    emit_str_pair(out, Local::ArgPtr, 32, help_loc);
    emit_store8_flag(out, Local::ArgPtr, 40, a.required);
    emit_opt_str(out, Local::ArgPtr, 44, &a.default_value, strings);
    emit_opt_str(out, Local::ArgPtr, 56, &a.value_name, strings);
    emit_store8_flag(out, Local::ArgPtr, 68, a.takes_value);
    proof {
        assert(iv(out@) =~= iv(old(out)@) + spec_meta_arg(j as int, arg_def_view(*a), strings@));
    }
}

#[verifier::loop_isolation(false)]
#[verifier::rlimit(100)]
fn emit_meta_record(
    out: &mut Vec<Instr>,
    i: usize,
    m: &crate::metadata::CommandMeta,
    strings: &StringTable,
)
    requires
        strings.wf(),
        (i + 1) * CMD_RECORD_SIZE <= IMM_LIMIT,
        schema_view_fits(meta_schema_view(*m), META_ARG_RECORD_SIZE as int),
    ensures
        iv(final(out)@) == iv(old(out)@) + spec_meta_record(i as int, meta_schema_view(*m), strings@),
{
    proof {
        assert(i <= i * 68 && i * 68 <= IMM_LIMIT) by (nonlinear_arith)
            requires
                (i + 1) * 68 <= IMM_LIMIT,
                i >= 0,
        ;
    }
    let record_off: u32 = (i as u32) * CMD_RECORD_SIZE;
    push_instr(out, Instr::Blank);
    emit_field_ptr(out, Local::ListPtr, record_off, Local::RecordPtr);
    let name_loc = strings.get(m.name.as_str());
    emit_str_pair(out, Local::RecordPtr, 0, name_loc);
    let summary_loc = strings.get(m.summary.as_str());
    emit_str_pair(out, Local::RecordPtr, 8, summary_loc);
    let usage_loc = strings.get(m.usage.as_str());
    emit_str_pair(out, Local::RecordPtr, 16, usage_loc);
    emit_str_list(out, Local::RecordPtr, 24, 28, Local::AliasesPtr, &m.aliases, strings);
    let version_loc = strings.get(m.version.as_str());
    emit_str_pair(out, Local::RecordPtr, 32, version_loc);
    emit_store8_flag(out, Local::RecordPtr, 40, m.hidden);
    let desc_loc = strings.get(m.description.as_str());
    emit_str_pair(out, Local::RecordPtr, 44, desc_loc);
    emit_str_list(out, Local::RecordPtr, 52, 56, Local::ExamplesPtr, &m.examples, strings);
    let ghost sv = meta_schema_view(*m);
    let ghost before_args = iv(out@);
    let na = m.args.len();
    if na == 0 {
        emit_store_const(out, Local::RecordPtr, 60, 0);
        emit_store_const(out, Local::RecordPtr, 64, 0);
        proof {
            assert(sv.args.len() == 0);
            assert(iv(out@) =~= before_args + spec_meta_args_list(sv.args, strings@));
        }
    } else {
        proof {
            assert(sv.args.len() == na);
            assert((na * 72) as int == sv.args.len() * 72) by (nonlinear_arith)
                requires
                    na == sv.args.len(),
            ;
        }
        let bytes: u32 = (na as u32) * META_ARG_RECORD_SIZE;
        emit_alloc_to(out, bytes, Local::ArgsPtr);
        emit_store_local(out, Local::RecordPtr, 60, Local::ArgsPtr);
        emit_store_const(out, Local::RecordPtr, 64, na as u32);
        let ghost args_start = iv(out@);
        let mut j: usize = 0;
        proof {
            assert(sv.args.take(0) =~= Seq::<ArgView>::empty());
        }
        while j < na
            invariant
                0 <= j <= na,
                iv(out@) == args_start + spec_meta_args(sv.args.take(j as int), strings@),
            decreases na - j,
        {
            proof {
                assert((j + 1) * 72 <= na * 72) by (nonlinear_arith)
                    requires
                        j < na,
                ;
            }
            emit_meta_arg(out, j, &m.args[j], strings);
            proof {
                assert(sv.args.take(j + 1).drop_last() =~= sv.args.take(j as int));
                assert(sv.args.take(j + 1).last() == sv.args[j as int]);
                assert(sv.args[j as int] == arg_def_view(m.args@[j as int]));
                assert(iv(out@) =~= args_start + spec_meta_args(sv.args.take(j + 1), strings@));
            }
            j = j + 1;
        }
        proof {
            assert(sv.args.take(na as int) =~= sv.args);
            assert(iv(out@) =~= before_args + spec_meta_args_list(sv.args, strings@));
        }
    }
    proof {
        assert(iv(out@) =~= iv(old(out)@) + spec_meta_record(i as int, sv, strings@));
    }
}

/// Build the `list-commands` body: every command's compact record, written
/// field by field at its declared offsets.
#[verifier::loop_isolation(false)]
pub fn build_list_commands_body(commands: &Vec<CommandInfo>, strings: &StringTable) -> (out: Vec<
    Instr,
>)
    requires
        strings.wf(),
        commands_fit(commands@),
    ensures
        iv(out@) == spec_list_commands_body(commands@, strings@),
{
    let ghost views = commands@.map_values(
        |c: CommandInfo| meta_schema_view(c.metadata.command_meta),
    );
    let mut out: Vec<Instr> = Vec::new();
    let n = commands.len();
    emit_list_header(&mut out, n);
    let ghost header = iv(out@);
    let mut i: usize = 0;
    proof {
        assert(views.take(0) =~= Seq::<SchemaView>::empty());
    }
    while i < n
        invariant
            0 <= i <= n,
            iv(out@) == header + spec_meta_records(views.take(i as int), strings@),
        decreases n - i,
    {
        proof {
            assert((i + 1) * 68 <= n * 68) by (nonlinear_arith)
                requires
                    i < n,
            ;
        }
        emit_meta_record(&mut out, i, &commands[i].metadata.command_meta, strings);
        proof {
            assert(views.take(i + 1).drop_last() =~= views.take(i as int));
            assert(views.take(i + 1).last() == views[i as int]);
            assert(views[i as int] == meta_schema_view(
                commands@[i as int].metadata.command_meta,
            ));
            assert(iv(out@) =~= header + spec_meta_records(views.take(i + 1), strings@));
        }
        i = i + 1;
    }
    proof {
        assert(views.take(n as int) =~= views);
    }
    push_instr(&mut out, Instr::Blank);
    push_instr(&mut out, Instr::LocalGet(Local::ResultPtr));
    proof {
        assert(iv(out@) =~= spec_list_commands_body(commands@, strings@));
    }
    out
}

#[verifier::rlimit(100)]
fn emit_schema_arg(
    out: &mut Vec<Instr>,
    j: usize,
    a: &crate::metadata::ArgSchema,
    strings: &StringTable,
)
    requires
        strings.wf(),
        (j + 1) * SCHEMA_ARG_RECORD_SIZE <= IMM_LIMIT,
        arg_view_fits(arg_schema_view(*a)),
    ensures
        iv(final(out)@) == iv(old(out)@) + spec_schema_arg(j as int, arg_schema_view(*a), strings@),
{
    proof {
        assert(j <= j * 124 && j * 124 <= IMM_LIMIT) by (nonlinear_arith)
            requires
                (j + 1) * 124 <= IMM_LIMIT,
                j >= 0,
        ;
    }
    let arg_off: u32 = (j as u32) * SCHEMA_ARG_RECORD_SIZE;
    push_instr(out, Instr::Blank);
    emit_field_ptr(out, Local::ArgsPtr, arg_off, Local::ArgPtr);
    let name_loc = strings.get(a.name.as_str());
    emit_str_pair(out, Local::ArgPtr, 0, name_loc);
    emit_opt_str(out, Local::ArgPtr, 8, &a.short, strings);
    emit_opt_str(out, Local::ArgPtr, 20, &a.long, strings);
    let help_loc = strings.get(a.help.as_str());
    emit_str_pair(out, Local::ArgPtr, 32, help_loc);
    emit_store8_flag(out, Local::ArgPtr, 40, a.required);
    emit_opt_str(out, Local::ArgPtr, 44, &a.default_value, strings);
    emit_opt_str(out, Local::ArgPtr, 56, &a.env, strings);
    emit_opt_str(out, Local::ArgPtr, 68, &a.value_name, strings);
    emit_store8_flag(out, Local::ArgPtr, 80, a.takes_value);
    emit_store8_flag(out, Local::ArgPtr, 81, a.multiple);
    emit_opt_str(out, Local::ArgPtr, 84, &a.value_type, strings);
    emit_str_list(out, Local::ArgPtr, 96, 100, Local::ValuesPtr, &a.possible_values, strings);
    emit_str_list(out, Local::ArgPtr, 104, 108, Local::ConflictsPtr, &a.conflicts_with, strings);
    emit_str_list(out, Local::ArgPtr, 112, 116, Local::RequiresPtr, &a.requires, strings);
    emit_store8_flag(out, Local::ArgPtr, 120, a.hidden);
    proof {
        assert(iv(out@) =~= iv(old(out)@) + spec_schema_arg(
            j as int,
            arg_schema_view(*a),
            strings@,
        ));
    }
}

#[verifier::loop_isolation(false)]
#[verifier::rlimit(100)]
fn emit_schema_record(
    out: &mut Vec<Instr>,
    i: usize,
    s: &crate::metadata::CommandSchema,
    strings: &StringTable,
)
    requires
        strings.wf(),
        (i + 1) * CMD_RECORD_SIZE <= IMM_LIMIT,
        schema_view_fits(schema_view(*s), SCHEMA_ARG_RECORD_SIZE as int),
    ensures
        iv(final(out)@) == iv(old(out)@) + spec_schema_record(i as int, schema_view(*s), strings@),
{
    proof {
        assert(i <= i * 68 && i * 68 <= IMM_LIMIT) by (nonlinear_arith)
            requires
                (i + 1) * 68 <= IMM_LIMIT,
                i >= 0,
        ;
    }
    let record_off: u32 = (i as u32) * CMD_RECORD_SIZE;
    push_instr(out, Instr::Blank);
    emit_field_ptr(out, Local::ListPtr, record_off, Local::RecordPtr);
    let name_loc = strings.get(s.name.as_str());
    emit_str_pair(out, Local::RecordPtr, 0, name_loc);
    let summary_loc = strings.get(s.summary.as_str());
    emit_str_pair(out, Local::RecordPtr, 8, summary_loc);
    let usage_loc = strings.get(s.usage.as_str());
    emit_str_pair(out, Local::RecordPtr, 16, usage_loc);
    emit_str_list(out, Local::RecordPtr, 24, 28, Local::AliasesPtr, &s.aliases, strings);
    let version_loc = strings.get(s.version.as_str());
    emit_str_pair(out, Local::RecordPtr, 32, version_loc);
    emit_store8_flag(out, Local::RecordPtr, 40, s.hidden);
    let desc_loc = strings.get(s.description.as_str());
    emit_str_pair(out, Local::RecordPtr, 44, desc_loc);
    emit_str_list(out, Local::RecordPtr, 52, 56, Local::ExamplesPtr, &s.examples, strings);
    let ghost sv = schema_view(*s);
    let ghost before_args = iv(out@);
    let na = s.args.len();
    if na == 0 {
        emit_store_const(out, Local::RecordPtr, 60, 0);
        emit_store_const(out, Local::RecordPtr, 64, 0);
        proof {
            assert(sv.args.len() == 0);
            assert(iv(out@) =~= before_args + spec_schema_args_list(sv.args, strings@));
        }
    } else {
        proof {
            assert(sv.args.len() == na);
            assert((na * 124) as int == sv.args.len() * 124) by (nonlinear_arith)
                requires
                    na == sv.args.len(),
            ;
        }
        let bytes: u32 = (na as u32) * SCHEMA_ARG_RECORD_SIZE;
        emit_alloc_to(out, bytes, Local::ArgsPtr);
        emit_store_local(out, Local::RecordPtr, 60, Local::ArgsPtr);
        emit_store_const(out, Local::RecordPtr, 64, na as u32);
        let ghost args_start = iv(out@);
        let mut j: usize = 0;
        proof {
            assert(sv.args.take(0) =~= Seq::<ArgView>::empty());
        }
        while j < na
            invariant
                0 <= j <= na,
                iv(out@) == args_start + spec_schema_args(sv.args.take(j as int), strings@),
            decreases na - j,
        {
            proof {
                assert((j + 1) * 124 <= na * 124) by (nonlinear_arith)
                    requires
                        j < na,
                ;
                assert(sv.args[j as int] == arg_schema_view(s.args@[j as int]));
            }
            emit_schema_arg(out, j, &s.args[j], strings);
            proof {
                assert(sv.args.take(j + 1).drop_last() =~= sv.args.take(j as int));
                assert(sv.args.take(j + 1).last() == sv.args[j as int]);
                assert(iv(out@) =~= args_start + spec_schema_args(sv.args.take(j + 1), strings@));
            }
            j = j + 1;
        }
        proof {
            assert(sv.args.take(na as int) =~= sv.args);
            assert(iv(out@) =~= before_args + spec_schema_args_list(sv.args, strings@));
        }
    }
    proof {
        assert(iv(out@) =~= iv(old(out)@) + spec_schema_record(i as int, sv, strings@));
    }
}

/// Build the `list-schemas` body: every command's rich record, synthesized
/// from the compact metadata where no schema is embedded.
#[verifier::loop_isolation(false)]
#[verifier::rlimit(100)]
pub fn build_list_schemas_body(commands: &Vec<CommandInfo>, strings: &StringTable) -> (out: Vec<
    Instr,
>)
    requires
        strings.wf(),
        commands_fit(commands@),
    ensures
        iv(out@) == spec_list_schemas_body(commands@, strings@),
{
    let ghost views = commands@.map_values(|c: CommandInfo| effective_schema_view(c));
    let mut out: Vec<Instr> = Vec::new();
    let n = commands.len();
    emit_list_header(&mut out, n);
    let ghost header = iv(out@);
    let mut i: usize = 0;
    proof {
        assert(views.take(0) =~= Seq::<SchemaView>::empty());
    }
    while i < n
        invariant
            0 <= i <= n,
            iv(out@) == header + spec_schema_records(views.take(i as int), strings@),
        decreases n - i,
    {
        proof {
            assert((i + 1) * 68 <= n * 68) by (nonlinear_arith)
                requires
                    i < n,
            ;
            assert(views[i as int] == effective_schema_view(commands@[i as int]));
        }
        let cmd = &commands[i];
        match &cmd.metadata.command_schema {
            Some(s) => {
                emit_schema_record(&mut out, i, s, strings);
            },
            None => {
                let synthesized = crate::metadata::CommandSchema::from_meta(
                    &cmd.metadata.command_meta,
                );
                emit_schema_record(&mut out, i, &synthesized, strings);
            },
        }
        proof {
            assert(views.take(i + 1).drop_last() =~= views.take(i as int));
            assert(views.take(i + 1).last() == views[i as int]);
            assert(iv(out@) =~= header + spec_schema_records(views.take(i + 1), strings@));
        }
        i = i + 1;
    }
    proof {
        assert(views.take(n as int) =~= views);
    }
    push_instr(&mut out, Instr::Blank);
    push_instr(&mut out, Instr::LocalGet(Local::ResultPtr));
    proof {
        assert(iv(out@) =~= spec_list_schemas_body(commands@, strings@));
    }
    out
}


/// The stores of one schema record that precede its argument-count store.
pub open spec fn spec_schema_record_front(i: int, s: SchemaView, t: TableModel) -> Seq<InstrV> {
    let common = seq![InstrV::Blank] + spec_field_ptr(
        Local::ListPtr,
        (i * CMD_RECORD_SIZE) as u32,
        Local::RecordPtr,
    ) + spec_str_pair(Local::RecordPtr, 0, spec_get(t, s.name)) + spec_str_pair(
        Local::RecordPtr,
        8,
        spec_get(t, s.summary),
    ) + spec_str_pair(Local::RecordPtr, 16, spec_get(t, s.usage)) + spec_str_list(
        Local::RecordPtr,
        24,
        28,
        Local::AliasesPtr,
        s.aliases,
        t,
    ) + spec_str_pair(Local::RecordPtr, 32, spec_get(t, s.version)) + spec_store8_flag(
        Local::RecordPtr,
        40,
        s.hidden,
    ) + spec_str_pair(Local::RecordPtr, 44, spec_get(t, s.description)) + spec_str_list(
        Local::RecordPtr,
        52,
        56,
        Local::ExamplesPtr,
        s.examples,
        t,
    );
    if s.args.len() == 0 {
        common + spec_store_const(Local::RecordPtr, 60, 0)
    } else {
        common + spec_alloc_to((s.args.len() * SCHEMA_ARG_RECORD_SIZE) as u32, Local::ArgsPtr)
            + spec_store_local(Local::RecordPtr, 60, Local::ArgsPtr)
    }
}

/// The per-argument stores of one schema record.
pub open spec fn spec_schema_record_args_tail(s: SchemaView, t: TableModel) -> Seq<InstrV> {
    if s.args.len() == 0 {
        Seq::empty()
    } else {
        spec_schema_args(s.args, t)
    }
}

/// The round-trip shape of the schema listing. The listing body is the
/// shared header, one record per command, and the returned pointer; the
/// header stores the exact command count for the returned pair; record `i`
/// stores, at its argument-count field, exactly the number of authored
/// argument descriptors of command `i` (those of the embedded schema when
/// present, of the compact metadata otherwise).
pub proof fn lemma_schema_listing_shape(cmds: Seq<CommandInfo>, t: TableModel, i: int)
    requires
        0 <= i < cmds.len(),
    ensures
        spec_list_schemas_body(cmds, t) == spec_list_header(cmds.len() as int)
            + spec_schema_records(
            cmds.map_values(|c: CommandInfo| effective_schema_view(c)),
            t,
        ) + spec_list_tail(),
        cmds.map_values(|c: CommandInfo| effective_schema_view(c)).len() == cmds.len(),
        spec_list_header(cmds.len() as int) == spec_alloc_to(8, Local::ResultPtr)
            + seq![InstrV::Blank] + spec_alloc_to(
            (cmds.len() * CMD_RECORD_SIZE) as u32,
            Local::ListPtr,
        ) + seq![InstrV::Blank] + spec_store_local(Local::ResultPtr, 0, Local::ListPtr)
            + spec_store_const(Local::ResultPtr, 4, cmds.len() as u32),
        spec_schema_record(i, effective_schema_view(cmds[i]), t) == spec_schema_record_front(
            i,
            effective_schema_view(cmds[i]),
            t,
        ) + spec_store_const(
            Local::RecordPtr,
            64,
            effective_schema_view(cmds[i]).args.len() as u32,
        ) + spec_schema_record_args_tail(effective_schema_view(cmds[i]), t),
        effective_schema_view(cmds[i]).args.len() == (match cmds[i].metadata.command_schema {
            Some(s) => s.args@.len(),
            None => cmds[i].metadata.command_meta.args@.len(),
        }),
{
    let sv = effective_schema_view(cmds[i]);
    if sv.args.len() == 0 {
        assert(spec_schema_record(i, sv, t) =~= spec_schema_record_front(i, sv, t)
            + spec_store_const(Local::RecordPtr, 64, sv.args.len() as u32)
            + spec_schema_record_args_tail(sv, t));
    } else {
        assert(spec_schema_record(i, sv, t) =~= spec_schema_record_front(i, sv, t)
            + spec_store_const(Local::RecordPtr, 64, sv.args.len() as u32)
            + spec_schema_record_args_tail(sv, t));
    }
}

} // verus!
