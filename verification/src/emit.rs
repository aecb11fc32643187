//! The text emitter: a typed instruction stream, its rendering to module
//! text, and the fixed-template filler.
//!
//! The layout encoder produces instructions, never raw text, so the byte
//! layout logic can be stated and checked independently of rendering.

use vstd::prelude::*;
use crate::text::{dec_u32, spec_dec};

verus! {

/// The locals the generated function bodies use.
#[derive(Debug, Clone, Copy)]
pub enum Local {
    ResultPtr,
    ListPtr,
    RecordPtr,
    AliasesPtr,
    ExamplesPtr,
    ArgsPtr,
    ArgPtr,
    ValuesPtr,
    ConflictsPtr,
    RequiresPtr,
    RetPtr,
    NamePtr,
    NameLen,
    ArgvPtr,
    ArgvLen,
}

/// One emitted stack-machine operation.
#[derive(Debug, Clone)]
pub enum Instr {
    /// Push an immediate.
    ConstI32(u32),
    /// Push a local.
    LocalGet(Local),
    /// Pop into a local.
    LocalSet(Local),
    /// Pop two, push their sum.
    Add,
    /// Pop value and address, store a word at the given offset.
    Store { offset: u32 },
    /// Pop value and address, store one byte at the given offset.
    Store8 { offset: u32 },
    /// Call the bump allocator with the pushed size.
    CallAlloc,
    /// Call the name-equality helper on the four pushed operands.
    CallMatchName,
    /// Call a command's imported run entry; the field is the full symbol.
    CallRun(String),
    /// Begin a guarded block.
    If,
    /// End a guarded block.
    End,
    /// Return the pushed value.
    Return,
    /// A blank separator line.
    Blank,
}

/// The mathematical shape of one instruction: as `Instr`, with the called
/// symbol as a character sequence.
pub enum InstrV {
    ConstI32(u32),
    LocalGet(Local),
    LocalSet(Local),
    Add,
    Store { offset: u32 },
    Store8 { offset: u32 },
    CallAlloc,
    CallMatchName,
    CallRun(Seq<char>),
    If,
    End,
    Return,
    Blank,
}

/// The shape of one instruction.
pub open spec fn instr_view(i: Instr) -> InstrV {
    match i {
        Instr::ConstI32(v) => InstrV::ConstI32(v),
        Instr::LocalGet(l) => InstrV::LocalGet(l),
        Instr::LocalSet(l) => InstrV::LocalSet(l),
        Instr::Add => InstrV::Add,
        Instr::Store { offset } => InstrV::Store { offset },
        Instr::Store8 { offset } => InstrV::Store8 { offset },
        Instr::CallAlloc => InstrV::CallAlloc,
        Instr::CallMatchName => InstrV::CallMatchName,
        Instr::CallRun(sym) => InstrV::CallRun(sym@),
        Instr::If => InstrV::If,
        Instr::End => InstrV::End,
        Instr::Return => InstrV::Return,
        Instr::Blank => InstrV::Blank,
    }
}

/// The shapes of an instruction sequence.
pub open spec fn iv(instrs: Seq<Instr>) -> Seq<InstrV> {
    instrs.map_values(|i: Instr| instr_view(i))
}

/// Append one instruction.
pub fn push_instr(out: &mut Vec<Instr>, i: Instr)
    ensures
        iv(final(out)@) == iv(old(out)@).push(instr_view(i)),
{
    let ghost pre = out@;
    out.push(i);
    proof {
        assert(iv(out@) =~= iv(pre).push(instr_view(out@[pre.len() as int])));
    }
}

/// The textual name of a local.
pub open spec fn local_name(l: Local) -> Seq<char> {
    match l {
        Local::ResultPtr => "$result_ptr"@,
        Local::ListPtr => "$list_ptr"@,
        Local::RecordPtr => "$record_ptr"@,
        Local::AliasesPtr => "$aliases_ptr"@,
        Local::ExamplesPtr => "$examples_ptr"@,
        Local::ArgsPtr => "$args_ptr"@,
        Local::ArgPtr => "$arg_ptr"@,
        Local::ValuesPtr => "$values_ptr"@,
        Local::ConflictsPtr => "$conflicts_ptr"@,
        Local::RequiresPtr => "$requires_ptr"@,
        Local::RetPtr => "$ret_ptr"@,
        Local::NamePtr => "$name_ptr"@,
        Local::NameLen => "$name_len"@,
        Local::ArgvPtr => "$argv_ptr"@,
        Local::ArgvLen => "$argv_len"@,
    }
}

fn local_name_exec(l: Local) -> (s: &'static str)
    ensures
        s@ == local_name(l),
{
    match l {
        Local::ResultPtr => "$result_ptr",
        Local::ListPtr => "$list_ptr",
        Local::RecordPtr => "$record_ptr",
        Local::AliasesPtr => "$aliases_ptr",
        Local::ExamplesPtr => "$examples_ptr",
        Local::ArgsPtr => "$args_ptr",
        Local::ArgPtr => "$arg_ptr",
        Local::ValuesPtr => "$values_ptr",
        Local::ConflictsPtr => "$conflicts_ptr",
        Local::RequiresPtr => "$requires_ptr",
        Local::RetPtr => "$ret_ptr",
        Local::NamePtr => "$name_ptr",
        Local::NameLen => "$name_len",
        Local::ArgvPtr => "$argv_ptr",
        Local::ArgvLen => "$argv_len",
    }
}

/// The rendered text of one instruction: four spaces of indentation, the
/// operation, a newline. A blank separator renders as a bare newline.
pub open spec fn instr_text(i: InstrV) -> Seq<char> {
    match i {
        InstrV::ConstI32(v) => "    i32.const "@ + spec_dec(v as int) + "\n"@,
        InstrV::LocalGet(l) => "    local.get "@ + local_name(l) + "\n"@,
        InstrV::LocalSet(l) => "    local.set "@ + local_name(l) + "\n"@,
        InstrV::Add => "    i32.add\n"@,
        InstrV::Store { offset } => "    i32.store offset="@ + spec_dec(offset as int)
            + " align=2\n"@,
        InstrV::Store8 { offset } => "    i32.store8 offset="@ + spec_dec(offset as int) + "\n"@,
        InstrV::CallAlloc => "    call $alloc\n"@,
        InstrV::CallMatchName => "    call $match-name\n"@,
        InstrV::CallRun(sym) => "    call $"@ + sym + "\n"@,
        InstrV::If => "    if\n"@,
        InstrV::End => "    end\n"@,
        InstrV::Return => "    return\n"@,
        InstrV::Blank => "\n"@,
    }
}

/// The rendered text of an instruction sequence, in order.
pub open spec fn spec_render(instrs: Seq<InstrV>) -> Seq<char>
    decreases instrs.len(),
{
    if instrs.len() == 0 {
        Seq::empty()
    } else {
        spec_render(instrs.drop_last()) + instr_text(instrs.last())
    }
}

/// Append the rendered text of one instruction.
fn push_instr_text(out: &mut String, i: &Instr)
    ensures
        final(out)@ == old(out)@ + instr_text(instr_view(*i)),
{
    match i {
        Instr::ConstI32(v) => {
            out.append("    i32.const ");
            let d = dec_u32(*v);
            out.append(d.as_str());
            out.append("\n");
        },
        Instr::LocalGet(l) => {
            out.append("    local.get ");
            out.append(local_name_exec(*l));
            out.append("\n");
        },
        Instr::LocalSet(l) => {
            out.append("    local.set ");
            out.append(local_name_exec(*l));
            out.append("\n");
        },
        Instr::Add => {
            out.append("    i32.add\n");
        },
        Instr::Store { offset } => {
            out.append("    i32.store offset=");
            let d = dec_u32(*offset);
            out.append(d.as_str());
            out.append(" align=2\n");
        },
        Instr::Store8 { offset } => {
            out.append("    i32.store8 offset=");
            let d = dec_u32(*offset);
            out.append(d.as_str());
            out.append("\n");
        },
        Instr::CallAlloc => {
            out.append("    call $alloc\n");
        },
        Instr::CallMatchName => {
            out.append("    call $match-name\n");
        },
        Instr::CallRun(sym) => {
            out.append("    call $");
            out.append(sym.as_str());
            out.append("\n");
        },
        Instr::If => {
            out.append("    if\n");
        },
        Instr::End => {
            out.append("    end\n");
        },
        Instr::Return => {
            out.append("    return\n");
        },
        Instr::Blank => {
            out.append("\n");
        },
    }
    proof {
        assert(out@ =~= old(out)@ + instr_text(instr_view(*i)));
    }
}

/// Render an instruction sequence to text.
#[verifier::loop_isolation(false)]
pub fn render_instrs(instrs: &Vec<Instr>) -> (s: String)
    ensures
        s@ == spec_render(iv(instrs@)),
{
    let mut out = String::new();
    let n = instrs.len();
    let mut i: usize = 0;
    proof {
        assert(iv(instrs@.take(0)) =~= iv(instrs@).take(0));
        assert(out@ =~= spec_render(iv(instrs@).take(0)));
    }
    while i < n
        invariant
            0 <= i <= n,
            out@ == spec_render(iv(instrs@).take(i as int)),
        decreases n - i,
    {
        push_instr_text(&mut out, &instrs[i]);
        proof {
            assert(iv(instrs@).take(i + 1).drop_last() =~= iv(instrs@).take(i as int));
            assert(iv(instrs@).take(i + 1).last() == instr_view(instrs@[i as int]));
        }
        i = i + 1;
    }
    proof {
        assert(iv(instrs@).take(n as int) =~= iv(instrs@));
    }
    out
}

/// Position of the first occurrence of `p` in `s`, if any.
pub open spec fn first_occurrence(s: Seq<char>, p: Seq<char>) -> Option<int>
    decreases s.len(),
{
    if p.is_prefix_of(s) {
        Some(0int)
    } else if s.len() == 0 {
        None
    } else {
        match first_occurrence(s.drop_first(), p) {
            Some(i) => Some(i + 1),
            None => None,
        }
    }
}

/// Replacing the unique occurrence of `p` in `s` by `v`: the text around the
/// occurrence is kept, and a missing or repeated occurrence is an error.
pub open spec fn spec_replace_unique(s: Seq<char>, p: Seq<char>, v: Seq<char>) -> Option<
    Seq<char>,
> {
    match first_occurrence(s, p) {
        None => None,
        Some(i) => {
            if first_occurrence(s.skip(i + p.len()), p) is Some {
                None
            } else {
                Some(s.take(i) + v + s.skip(i + p.len()))
            }
        },
    }
}

/// Whether `p` matches `s` at position `i`.
#[verifier::loop_isolation(false)]
fn match_at(s: &str, p: &str, i: usize) -> (r: bool)
    requires
        i + p@.len() <= s@.len(),
    ensures
        r == p@.is_prefix_of(s@.skip(i as int)),
{
    let ns = s.unicode_len();
    let np = p.unicode_len();
    let mut j: usize = 0;
    while j < np
        invariant
            0 <= j <= np,
            forall|t: int| 0 <= t < j ==> s@[i + t] == p@[t],
        decreases np - j,
    {
        if s.get_char(i + j) != p.get_char(j) {
            proof {
                assert(s@.skip(i as int)[j as int] == s@[i + j]);
                assert(!p@.is_prefix_of(s@.skip(i as int)));
            }
            return false;
        }
        j = j + 1;
    }
    proof {
        assert forall|t: int| 0 <= t < np implies s@.skip(i as int)[t] == p@[t] by {
            assert(s@.skip(i as int)[t] == s@[i + t]);
        }
        assert(p@ =~= s@.skip(i as int).take(np as int));
    }
    true
}

/// Find the first occurrence of `p` in `s` at or after position `from`.
#[verifier::loop_isolation(false)]
fn find_from(s: &str, p: &str, from: usize) -> (r: Option<usize>)
    requires
        from <= s@.len(),
        p@.len() >= 1,
    ensures
        match r {
            Some(i) => from <= i && i + p@.len() <= s@.len() && first_occurrence(
                s@.skip(from as int),
                p@,
            ) == Some(i - from),
            None => first_occurrence(s@.skip(from as int), p@) is None,
        },
{
    let ns = s.unicode_len();
    let np = p.unicode_len();
    if np > ns || from > ns - np {
        proof {
            assert forall|k: int| from <= k < s@.len() implies !p@.is_prefix_of(
                s@.skip(k),
            ) by {
                assert(s@.skip(k).len() < p@.len());
            }
            lemma_first_occurrence_none(s@, p@, from as int);
        }
        return None;
    }
    let limit = ns - np;
    let mut i: usize = from;
    while i <= limit
        invariant
            from <= i,
            i <= limit + 1,
            limit + np == ns,
            forall|k: int| from <= k < i ==> !p@.is_prefix_of(s@.skip(k)),
        decreases limit + 1 - i,
    {
        if match_at(s, p, i) {
            proof {
                lemma_first_occurrence_at(s@, p@, from as int, i as int);
            }
            return Some(i);
        }
        i = i + 1;
    }
    proof {
        assert forall|k: int| from <= k < s@.len() implies !p@.is_prefix_of(s@.skip(k)) by {
            if k > limit {
                assert(s@.skip(k).len() < p@.len());
            }
        }
        lemma_first_occurrence_none(s@, p@, from as int);
    }
    None
}

proof fn lemma_first_occurrence_at(s: Seq<char>, p: Seq<char>, from: int, i: int)
    requires
        0 <= from <= i,
        i + p.len() <= s.len(),
        p.is_prefix_of(s.skip(i)),
        forall|k: int| from <= k < i ==> !p.is_prefix_of(s.skip(k)),
    ensures
        first_occurrence(s.skip(from), p) == Some(i - from),
    decreases i - from,
{
    if i == from {
        assert(first_occurrence(s.skip(from), p) == Some(0int));
    } else {
        assert(!p.is_prefix_of(s.skip(from)));
        assert(s.skip(from).len() > 0);
        assert(s.skip(from).drop_first() =~= s.skip(from + 1));
        lemma_first_occurrence_at(s, p, from + 1, i);
    }
}

proof fn lemma_first_occurrence_none(s: Seq<char>, p: Seq<char>, from: int)
    requires
        0 <= from <= s.len(),
        p.len() >= 1,
        forall|k: int| from <= k < s.len() ==> !p.is_prefix_of(s.skip(k)),
    ensures
        first_occurrence(s.skip(from), p) is None,
    decreases s.len() - from,
{
    if from < s.len() {
        assert(!p.is_prefix_of(s.skip(from)));
        assert(s.skip(from).drop_first() =~= s.skip(from + 1));
        lemma_first_occurrence_none(s, p, from + 1);
    } else {
        assert(s.skip(from).len() == 0);
    }
}

/// Fill one placeholder, requiring it to occur exactly once.
fn replace_unique(s: &str, p: &str, v: &str) -> (r: Result<String, String>)
    requires
        p@.len() >= 1,
    ensures
        match r {
            Ok(t) => spec_replace_unique(s@, p@, v@) == Some(t@),
            Err(_) => spec_replace_unique(s@, p@, v@) is None,
        },
{
    proof {
        assert(s@.skip(0) =~= s@);
    }
    let np = p.unicode_len();
    let ns = s.unicode_len();
    match find_from(s, p, 0) {
        None => Err(missing_placeholder_message(p)),
        Some(i) => {
            match find_from(s, p, i + np) {
                Some(_) => Err(duplicate_placeholder_message(p)),
                None => {
                    let mut out = String::new();
                    let head = s.substring_char(0, i);
                    out.append(head);
                    out.append(v);
                    let tail = s.substring_char(i + np, ns);
                    out.append(tail);
                    proof {
                        assert(head@ =~= s@.take(i as int));
                        assert(tail@ =~= s@.skip(i + p@.len()));
                        assert(out@ =~= s@.take(i as int) + v@ + s@.skip(i + p@.len()));
                    }
                    Ok(out)
                },
            }
        },
    }
}

fn missing_placeholder_message(p: &str) -> (m: String) {
    let mut m = String::new();
    m.append("placeholder not found in module template: ");
    m.append(p);
    m
}

fn duplicate_placeholder_message(p: &str) -> (m: String) {
    let mut m = String::new();
    m.append("placeholder occurs more than once in module template: ");
    m.append(p);
    m
}

/// Filling a whole replacement list, left to right; any missing or repeated
/// placeholder fails the fill.
pub open spec fn spec_apply_template(s: Seq<char>, reps: Seq<(Seq<char>, Seq<char>)>) -> Option<
    Seq<char>,
>
    decreases reps.len(),
{
    if reps.len() == 0 {
        Some(s)
    } else {
        match spec_replace_unique(s, reps[0].0, reps[0].1) {
            None => None,
            Some(t) => spec_apply_template(t, reps.drop_first()),
        }
    }
}

/// Fill a template: each placeholder must occur exactly once.
#[verifier::loop_isolation(false)]
pub fn apply_template(template: &str, reps: &Vec<(String, String)>) -> (r: Result<String, String>)
    requires
        forall|i: int| 0 <= i < reps@.len() ==> (#[trigger] reps@[i].0)@.len() >= 1,
    ensures
        match r {
            Ok(t) => spec_apply_template(
                template@,
                Seq::new(reps@.len(), |i: int| (reps@[i].0@, reps@[i].1@)),
            ) == Some(t@),
            Err(_) => spec_apply_template(
                template@,
                Seq::new(reps@.len(), |i: int| (reps@[i].0@, reps@[i].1@)),
            ) is None,
        },
{
    let ghost rep_views = Seq::new(reps@.len(), |i: int| (reps@[i].0@, reps@[i].1@));
    let mut out: String = template.to_owned();
    let n = reps.len();
    let mut i: usize = 0;
    proof {
        assert(rep_views.skip(0) =~= rep_views);
    }
    while i < n
        invariant
            0 <= i <= n,
            spec_apply_template(template@, rep_views) == spec_apply_template(
                out@,
                rep_views.skip(i as int),
            ),
        decreases n - i,
    {
        let filled = replace_unique(out.as_str(), reps[i].0.as_str(), reps[i].1.as_str());
        match filled {
            Ok(t) => {
                proof {
                    assert(rep_views.skip(i as int)[0] == (reps@[i as int].0@, reps@[i as int].1@));
                    assert(rep_views.skip(i as int).drop_first() =~= rep_views.skip(i + 1));
                }
                out = t;
            },
            Err(e) => {
                proof {
                    assert(rep_views.skip(i as int)[0] == (reps@[i as int].0@, reps@[i as int].1@));
                }
                return Err(e);
            },
        }
        i = i + 1;
    }
    proof {
        assert(rep_views.skip(n as int) =~= Seq::<(Seq<char>, Seq<char>)>::empty());
    }
    Ok(out)
}

} // verus!
