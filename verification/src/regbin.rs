//! The compact name table of the binary-encoded registry path: every
//! command name packed back to back, with its offset and length recorded.

use vstd::prelude::*;
use crate::scan::CommandInfo;
use crate::strtab::str_bytes;

verus! {

use vstd::string::StringSliceAdditionalSpecFns;

/// The packed command names and their `(offset, length)` locations, in
/// discovery order.
pub struct NameTable {
    pub data: Vec<u8>,
    pub offsets: Vec<(u32, u32)>,
}

/// The packed bytes of a command name list.
pub open spec fn spec_packed_names(cmds: Seq<CommandInfo>) -> Seq<u8>
    decreases cmds.len(),
{
    if cmds.len() == 0 {
        Seq::empty()
    } else {
        spec_packed_names(cmds.drop_last()) + str_bytes(cmds.last().name@)
    }
}

/// The location of entry `i`: its offset is the packed size of everything
/// before it, its length its own byte length.
pub open spec fn spec_name_offsets(cmds: Seq<CommandInfo>) -> Seq<(u32, u32)>
    decreases cmds.len(),
{
    if cmds.len() == 0 {
        Seq::empty()
    } else {
        spec_name_offsets(cmds.drop_last()).push(
            (
                spec_packed_names(cmds.drop_last()).len() as u32,
                str_bytes(cmds.last().name@).len() as u32,
            ),
        )
    }
}

/// Build the compact name table of the command list.
#[verifier::loop_isolation(false)]
pub fn build_name_table(commands: &Vec<CommandInfo>) -> (t: NameTable)
    requires
        spec_packed_names(commands@).len() <= u32::MAX,
    ensures
        t.data@ == spec_packed_names(commands@),
        t.offsets@ == spec_name_offsets(commands@),
{
    let mut data: Vec<u8> = Vec::new();
    let mut offsets: Vec<(u32, u32)> = Vec::new();
    let n = commands.len();
    let mut i: usize = 0;
    proof {
        assert(commands@.take(0) =~= Seq::<CommandInfo>::empty());
        assert(data@ =~= spec_packed_names(commands@.take(0)));
        assert(offsets@ =~= spec_name_offsets(commands@.take(0)));
        lemma_packed_prefix(commands@, n as int);
    }
    while i < n
        invariant
            0 <= i <= n,
            data@ == spec_packed_names(commands@.take(i as int)),
            offsets@ == spec_name_offsets(commands@.take(i as int)),
        decreases n - i,
    {
        proof {
            lemma_packed_prefix(commands@, i as int);
        }
        let offset = data.len() as u32;
        let name_bytes = commands[i].name.as_str().as_bytes_vec();
        let len = name_bytes.len() as u32;
        let mut k: usize = 0;
        let ghost pre = data@;
        while k < name_bytes.len()
            invariant
                0 <= k <= name_bytes@.len(),
                data@ == pre + name_bytes@.take(k as int),
            decreases name_bytes@.len() - k,
        {
            let b = name_bytes[k];
            data.push(b);
            proof {
                assert(pre + name_bytes@.take(k as int) + seq![name_bytes@[k as int]] =~= pre
                    + name_bytes@.take(k as int + 1));
            }
            k = k + 1;
        }
        offsets.push((offset, len));
        proof {
            assert(name_bytes@.take(name_bytes@.len() as int) =~= name_bytes@);
            assert(commands@.take(i + 1).drop_last() =~= commands@.take(i as int));
            assert(commands@.take(i + 1).last() == commands@[i as int]);
            assert(data@ =~= spec_packed_names(commands@.take(i + 1)));
            assert(offsets@ =~= spec_name_offsets(commands@.take(i + 1)));
        }
        i = i + 1;
    }
    proof {
        assert(commands@.take(n as int) =~= commands@);
    }
    NameTable { data, offsets }
}

/// The packed size of a prefix never exceeds the packed size of the whole
/// list.
proof fn lemma_packed_prefix(cmds: Seq<CommandInfo>, i: int)
    requires
        0 <= i <= cmds.len(),
    ensures
        spec_packed_names(cmds.take(i)).len() <= spec_packed_names(cmds).len(),
    decreases cmds.len() - i,
{
    if i < cmds.len() {
        lemma_packed_prefix(cmds, i + 1);
        assert(cmds.take(i + 1).drop_last() =~= cmds.take(i));
    } else {
        assert(cmds.take(i) =~= cmds);
    }
}

} // verus!
