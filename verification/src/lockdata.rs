//! The lock data: pinned framework components and registry commands, with
//! the digests deterministic pulls rely on. Reading and writing the lock
//! file is the host's business; the data and its update rules live here.

use vstd::prelude::*;
use crate::text::str_eq;

verus! {

/// The current lock schema version.
pub const LOCK_SCHEMA_VERSION: u32 = 1;

/// The lock: the schema version, the registry it was last updated against,
/// the pinned framework parts and the pinned commands.
#[derive(Debug, Clone)]
pub struct LockFile {
    pub schema_version: u32,
    pub molt_registry: Option<String>,
    pub framework: Option<FrameworkLock>,
    pub commands: Vec<LockedRegistryCommand>,
}

/// The pinned framework components.
#[derive(Debug, Clone)]
pub struct FrameworkLock {
    pub host: Option<LockedComponent>,
    pub core: Option<LockedComponent>,
}

impl Default for FrameworkLock {
    /// A framework lock pinning nothing.
    fn default() -> (d: FrameworkLock)
        ensures
            d.host is None,
            d.core is None,
    {
        FrameworkLock { host: None, core: None }
    }
}

/// One pinned component: the repository, the requested reference, and the
/// resolved digests.
#[derive(Debug, Clone)]
pub struct LockedComponent {
    pub repo: String,
    pub reference: String,
    pub digest: String,
    pub layer_digest: Option<String>,
}

/// One pinned registry command.
#[derive(Debug, Clone)]
pub struct LockedRegistryCommand {
    pub name: String,
    pub repo: String,
    pub reference: String,
    pub digest: String,
    pub layer_digest: Option<String>,
}

impl Default for LockFile {
    /// A fresh lock at the current schema version, pinning nothing.
    fn default() -> (d: LockFile)
        ensures
            d.schema_version == LOCK_SCHEMA_VERSION,
            d.molt_registry is None,
            d.framework is None,
            d.commands@.len() == 0,
    {
        LockFile {
            schema_version: LOCK_SCHEMA_VERSION,
            molt_registry: None,
            framework: None,
            commands: Vec::new(),
        }
    }
}

/// The lock file location under a base directory.
pub fn lock_path(base_dir: &str) -> (r: String)
    ensures
        r@ == base_dir@ + "/wacli.lock"@,
{
    let mut s: String = base_dir.to_owned();
    s.append("/wacli.lock");
    s
}

/// The first pinned command with a name, if any.
pub open spec fn spec_find_command(cmds: Seq<LockedRegistryCommand>, name: Seq<char>) -> Option<
    int,
>
    decreases cmds.len(),
{
    if cmds.len() == 0 {
        None
    } else if cmds[0].name@ == name {
        Some(0int)
    } else {
        match spec_find_command(cmds.drop_first(), name) {
            Some(i) => Some(i + 1),
            None => None,
        }
    }
}

impl LockFile {
    /// The pinned framework host, if any.
    pub fn framework_host(&self) -> (r: Option<&LockedComponent>)
        ensures
            match r {
                Some(c) => self.framework is Some && self.framework->Some_0.host == Some(*c),
                None => self.framework is None || self.framework->Some_0.host is None,
            },
    {
        match &self.framework {
            Some(f) => match &f.host {
                Some(c) => Some(c),
                None => None,
            },
            None => None,
        }
    }

    /// The pinned framework core, if any.
    pub fn framework_core(&self) -> (r: Option<&LockedComponent>)
        ensures
            match r {
                Some(c) => self.framework is Some && self.framework->Some_0.core == Some(*c),
                None => self.framework is None || self.framework->Some_0.core is None,
            },
    {
        match &self.framework {
            Some(f) => match &f.core {
                Some(c) => Some(c),
                None => None,
            },
            None => None,
        }
    }

    /// Pin the framework host, keeping any pinned core.
    pub fn set_framework_host(&mut self, v: LockedComponent)
        ensures
            final(self).framework is Some,
            final(self).framework->Some_0.host == Some(v),
            final(self).framework->Some_0.core == match old(self).framework {
                Some(f) => f.core,
                None => None::<LockedComponent>,
            },
            final(self).schema_version == old(self).schema_version,
            final(self).molt_registry == old(self).molt_registry,
            final(self).commands == old(self).commands,
    {
        let old_fw = self.framework.take();
        let core = match old_fw {
            Some(f) => f.core,
            None => None,
        };
        self.framework = Some(FrameworkLock { host: Some(v), core });
    }

    /// Pin the framework core, keeping any pinned host.
    pub fn set_framework_core(&mut self, v: LockedComponent)
        ensures
            final(self).framework is Some,
            final(self).framework->Some_0.core == Some(v),
            final(self).framework->Some_0.host == match old(self).framework {
                Some(f) => f.host,
                None => None::<LockedComponent>,
            },
            final(self).schema_version == old(self).schema_version,
            final(self).molt_registry == old(self).molt_registry,
            final(self).commands == old(self).commands,
    {
        let old_fw = self.framework.take();
        let host = match old_fw {
            Some(f) => f.host,
            None => None,
        };
        self.framework = Some(FrameworkLock { host, core: Some(v) });
    }

    /// The first pinned command of a name, if any.
    #[verifier::loop_isolation(false)]
    pub fn find_command(&self, name: &str) -> (r: Option<&LockedRegistryCommand>)
        ensures
            match r {
                Some(c) => spec_find_command(self.commands@, name@) is Some && *c
                    == self.commands@[spec_find_command(self.commands@, name@)->Some_0],
                None => spec_find_command(self.commands@, name@) is None,
            },
    {
        let n = self.commands.len();
        let mut i: usize = 0;
        proof {
            assert(self.commands@.skip(0) =~= self.commands@);
        }
        while i < n
            invariant
                0 <= i <= n,
                forall|j: int| 0 <= j < i ==> (#[trigger] self.commands@[j]).name@ != name@,
            decreases n - i,
        {
            if str_eq(self.commands[i].name.as_str(), name) {
                proof {
                    lemma_find_command_at(self.commands@, name@, i as int);
                }
                return Some(&self.commands[i]);
            }
            i = i + 1;
        }
        proof {
            lemma_find_command_none(self.commands@, name@);
        }
        None
    }

    /// Pin a command: an existing entry of the same name is replaced, a new
    /// name is appended.
    #[verifier::loop_isolation(false)]
    pub fn set_command(&mut self, v: LockedRegistryCommand)
        ensures
            final(self).schema_version == old(self).schema_version,
            final(self).molt_registry == old(self).molt_registry,
            final(self).framework == old(self).framework,
            match spec_find_command(old(self).commands@, v.name@) {
                Some(i) => final(self).commands@ == old(self).commands@.update(i, v),
                None => final(self).commands@ == old(self).commands@.push(v),
            },
    {
        let n = self.commands.len();
        let mut i: usize = 0;
        while i < n
            invariant
                0 <= i <= n,
                n == self.commands@.len(),
                self == old(self),
                forall|j: int| 0 <= j < i ==> (#[trigger] self.commands@[j]).name@ != v.name@,
            decreases n - i,
        {
            if str_eq(self.commands[i].name.as_str(), v.name.as_str()) {
                proof {
                    lemma_find_command_at(self.commands@, v.name@, i as int);
                }
                self.commands[i] = v;
                return ;
            }
            i = i + 1;
        }
        proof {
            lemma_find_command_none(self.commands@, v.name@);
        }
        self.commands.push(v);
    }
}

proof fn lemma_find_command_at(cmds: Seq<LockedRegistryCommand>, name: Seq<char>, i: int)
    requires
        0 <= i < cmds.len(),
        cmds[i].name@ == name,
        forall|j: int| 0 <= j < i ==> (#[trigger] cmds[j]).name@ != name,
    ensures
        spec_find_command(cmds, name) == Some(i),
    decreases i,
{
    if i > 0 {
        assert(cmds.drop_first() =~= cmds.skip(1));
        assert forall|j: int| 0 <= j < i - 1 implies (#[trigger] cmds.skip(1)[j]).name@
            != name by {
            assert(cmds.skip(1)[j] == cmds[j + 1]);
        }
        assert(cmds.skip(1)[i - 1] == cmds[i]);
        lemma_find_command_at(cmds.skip(1), name, i - 1);
    }
}

proof fn lemma_find_command_none(cmds: Seq<LockedRegistryCommand>, name: Seq<char>)
    requires
        forall|j: int| 0 <= j < cmds.len() ==> (#[trigger] cmds[j]).name@ != name,
    ensures
        spec_find_command(cmds, name) is None,
    decreases cmds.len(),
{
    if cmds.len() > 0 {
        assert(cmds.drop_first() =~= cmds.skip(1));
        assert forall|j: int| 0 <= j < cmds.skip(1).len() implies (#[trigger] cmds.skip(
            1,
        )[j]).name@ != name by {
            assert(cmds.skip(1)[j] == cmds[j + 1]);
        }
        lemma_find_command_none(cmds.skip(1), name);
    }
}

} // verus!
