//! The dispatch model of the generated `run` entry: first match wins, in
//! discovery order, a command's canonical name before its aliases, with no
//! case or whitespace normalization.
//!
//! The emitted dispatcher compares the called name against exactly these
//! candidates in exactly this order (`spec_run_body`); this model is the
//! same rule over the descriptor list itself, so the dispatch behaviour can
//! be stated and exercised without running the artifact.

use vstd::prelude::*;
use crate::scan::CommandInfo;
use crate::text::str_eq;

verus! {

/// Whether a called name selects a command: it equals the canonical name or
/// one of the aliases, byte for byte.
pub open spec fn cmd_matches(c: CommandInfo, name: Seq<char>) -> bool {
    c.metadata.command_meta.name@ == name || c.metadata.command_meta.aliases.deep_view().contains(
        name,
    )
}

/// The index of the first command a called name selects, if any.
pub open spec fn spec_resolve(cmds: Seq<CommandInfo>, name: Seq<char>) -> Option<int>
    decreases cmds.len(),
{
    if cmds.len() == 0 {
        None
    } else if cmd_matches(cmds[0], name) {
        Some(0int)
    } else {
        match spec_resolve(cmds.drop_first(), name) {
            Some(i) => Some(i + 1),
            None => None,
        }
    }
}

/// Whether one command matches a called name.
#[verifier::loop_isolation(false)]
fn matches_command(c: &CommandInfo, name: &str) -> (r: bool)
    ensures
        r == cmd_matches(*c, name@),
{
    if str_eq(c.metadata.command_meta.name.as_str(), name) {
        return true;
    }
    let aliases = &c.metadata.command_meta.aliases;
    let n = aliases.len();
    let mut i: usize = 0;
    while i < n
        invariant
            0 <= i <= n,
            forall|j: int| 0 <= j < i ==> aliases.deep_view()[j] != name@,
        decreases n - i,
    {
        if str_eq(aliases[i].as_str(), name) {
            proof {
                assert(aliases.deep_view()[i as int] == name@);
            }
            return true;
        }
        i = i + 1;
    }
    proof {
        if aliases.deep_view().contains(name@) {
            let j = choose|j: int| 0 <= j < aliases.deep_view().len() && aliases.deep_view()[j]
                == name@;
            assert(aliases.deep_view()[j] != name@);
        }
    }
    false
}

/// Resolve a called name against the descriptor list: the index of the
/// first command whose canonical name or alias equals the name exactly, or
/// nothing, in which case the generated dispatcher yields the
/// unknown-command result carrying that very name.
#[verifier::loop_isolation(false)]
pub fn resolve_dispatch(cmds: &Vec<CommandInfo>, name: &str) -> (r: Option<usize>)
    ensures
        match r {
            Some(i) => spec_resolve(cmds@, name@) == Some(i as int),
            None => spec_resolve(cmds@, name@) is None,
        },
{
    let n = cmds.len();
    let mut i: usize = 0;
    proof {
        assert(cmds@.skip(0) =~= cmds@);
    }
    while i < n
        invariant
            0 <= i <= n,
            forall|j: int| 0 <= j < i ==> !cmd_matches(cmds@[j], name@),
        decreases n - i,
    {
        if matches_command(&cmds[i], name) {
            proof {
                lemma_resolve_at(cmds@, name@, i as int);
            }
            return Some(i);
        }
        i = i + 1;
    }
    proof {
        lemma_resolve_none(cmds@, name@);
    }
    None
}

proof fn lemma_resolve_at(cmds: Seq<CommandInfo>, name: Seq<char>, i: int)
    requires
        0 <= i < cmds.len(),
        cmd_matches(cmds[i], name),
        forall|j: int| 0 <= j < i ==> !cmd_matches(cmds[j], name),
    ensures
        spec_resolve(cmds, name) == Some(i),
    decreases i,
{
    if i > 0 {
        assert(cmds.drop_first() =~= cmds.skip(1));
        assert forall|j: int| 0 <= j < i - 1 implies !cmd_matches(cmds.skip(1)[j], name) by {
            assert(cmds.skip(1)[j] == cmds[j + 1]);
        }
        assert(cmds.skip(1)[i - 1] == cmds[i]);
        lemma_resolve_at(cmds.skip(1), name, i - 1);
    }
}

proof fn lemma_resolve_none(cmds: Seq<CommandInfo>, name: Seq<char>)
    requires
        forall|j: int| 0 <= j < cmds.len() ==> !cmd_matches(cmds[j], name),
    ensures
        spec_resolve(cmds, name) is None,
    decreases cmds.len(),
{
    if cmds.len() > 0 {
        assert(cmds.drop_first() =~= cmds.skip(1));
        assert forall|j: int| 0 <= j < cmds.skip(1).len() implies !cmd_matches(
            cmds.skip(1)[j],
            name,
        ) by {
            assert(cmds.skip(1)[j] == cmds[j + 1]);
        }
        lemma_resolve_none(cmds.skip(1), name);
    }
}

/// A resolved index is the first matching one; an unresolved name matches no
/// command at all.
pub proof fn lemma_resolve_first_match(cmds: Seq<CommandInfo>, name: Seq<char>)
    ensures
        match spec_resolve(cmds, name) {
            Some(i) => 0 <= i < cmds.len() && cmd_matches(cmds[i], name) && forall|j: int|
                0 <= j < i ==> !cmd_matches(cmds[j], name),
            None => forall|j: int| 0 <= j < cmds.len() ==> !cmd_matches(cmds[j], name),
        },
    decreases cmds.len(),
{
    if cmds.len() > 0 && !cmd_matches(cmds[0], name) {
        lemma_resolve_first_match(cmds.drop_first(), name);
        assert forall|j: int| 1 <= j < cmds.len() implies cmds.drop_first()[j - 1] == cmds[
            j
        ] by {
        }
    }
}

/// Dispatch coverage: when no command declares an alias, a called name
/// selects command `i` if and only if it equals descriptor `i`'s canonical
/// name exactly and no earlier descriptor carries that name; any other name
/// resolves to nothing, and the generated dispatcher then yields the
/// unknown-command result embedding that exact name.
pub proof fn lemma_dispatch_coverage(cmds: Seq<CommandInfo>, name: Seq<char>, i: int)
    requires
        forall|k: int|
            0 <= k < cmds.len() ==> (#[trigger] cmds[k]).metadata.command_meta.aliases@.len()
                == 0,
        0 <= i < cmds.len(),
    ensures
        (spec_resolve(cmds, name) == Some(i)) <==> (cmds[i].metadata.command_meta.name@ == name
            && forall|j: int|
            0 <= j < i ==> (#[trigger] cmds[j]).metadata.command_meta.name@ != name),
{
    lemma_resolve_first_match(cmds, name);
    assert forall|k: int| 0 <= k < cmds.len() implies cmd_matches(cmds[k], name)
        == (cmds[k].metadata.command_meta.name@ == name) by {
        assert(cmds[k].metadata.command_meta.aliases@.len() == 0);
        assert(cmds[k].metadata.command_meta.aliases.deep_view().len() == 0);
        if cmds[k].metadata.command_meta.aliases.deep_view().contains(name) {
            let al = cmds[k].metadata.command_meta.aliases.deep_view();
            let j = choose|j: int| 0 <= j < al.len() && al[j] == name;
        }
    }
    if spec_resolve(cmds, name) is Some && spec_resolve(cmds, name) != Some(i) {
        let w = spec_resolve(cmds, name)->Some_0;
        if w < i {
        } else {
            assert(!cmd_matches(cmds[i], name));
        }
    }
    if cmds[i].metadata.command_meta.name@ == name && (forall|j: int|
        0 <= j < i ==> (#[trigger] cmds[j]).metadata.command_meta.name@ != name) {
        if spec_resolve(cmds, name) is None {
            assert(cmd_matches(cmds[i], name));
        }
    }
}

/// Exact-length gating: a called name whose length differs from a
/// candidate's length never selects through that candidate, because the
/// length comparison precedes the byte comparison. In particular, with
/// commands named `build` and `build2`, calling `build` never matches the
/// `build2` entry and calling `build2` never matches the `build` entry.
pub proof fn lemma_exact_length_gating(cmds: Seq<CommandInfo>, name: Seq<char>, i: int)
    requires
        0 <= i < cmds.len(),
        cmds[i].metadata.command_meta.name@.len() != name.len(),
        forall|j: int|
            0 <= j < cmds[i].metadata.command_meta.aliases.deep_view().len() ==> (
            #[trigger] cmds[i].metadata.command_meta.aliases.deep_view()[j]).len() != name.len(),
    ensures
        !cmd_matches(cmds[i], name),
        spec_resolve(cmds, name) != Some(i),
{
    if cmds[i].metadata.command_meta.aliases.deep_view().contains(name) {
        let al = cmds[i].metadata.command_meta.aliases.deep_view();
        let j = choose|j: int| 0 <= j < al.len() && al[j] == name;
        assert(al[j].len() != name.len());
    }
    lemma_resolve_first_match(cmds, name);
}

/// Alias shadowing: if an earlier command declares an alias equal to a later
/// command's canonical name, the alias wins — the name resolves at or before
/// the aliased command and never to the later one. This first-match-wins
/// behaviour is inherited from discovery order and is preserved, not
/// corrected.
pub proof fn lemma_alias_shadowing(cmds: Seq<CommandInfo>, name: Seq<char>, a: int, b: int)
    requires
        0 <= a < b < cmds.len(),
        cmds[a].metadata.command_meta.aliases.deep_view().contains(name),
        cmds[b].metadata.command_meta.name@ == name,
    ensures
        spec_resolve(cmds, name) is Some,
        spec_resolve(cmds, name)->Some_0 <= a,
        spec_resolve(cmds, name) != Some(b),
{
    lemma_resolve_first_match(cmds, name);
    assert(cmd_matches(cmds[a], name));
    if spec_resolve(cmds, name) is None {
        assert(!cmd_matches(cmds[a], name));
    }
    let w = spec_resolve(cmds, name)->Some_0;
    if w > a {
        assert(!cmd_matches(cmds[a], name));
    }
}

} // verus!
