//! Discovered-command data and the name rules the scanner enforces.
//!
//! Reading component files and walking directories stays outside the
//! library; what arrives here are plain values: the command name derived
//! from the file name, the component path, the top-level import names, and
//! the embedded metadata.

use vstd::prelude::*;
use crate::metadata::CommandMetadataV1;
use crate::text::{push_char, str_eq};

verus! {

/// Information about one discovered command component.
#[derive(Debug, Clone)]
pub struct CommandInfo {
    /// Command name (derived from the file name).
    pub name: String,
    /// Path to the component file.
    pub path: String,
    /// Top-level component import names.
    pub imports: Vec<String>,
    /// Embedded command metadata.
    pub metadata: CommandMetadataV1,
}

pub open spec fn is_lower(c: char) -> bool {
    97 <= c as u32 <= 122
}

pub open spec fn is_digit(c: char) -> bool {
    48 <= c as u32 <= 57
}

pub open spec fn is_upper(c: char) -> bool {
    65 <= c as u32 <= 90
}

pub open spec fn is_alnum(c: char) -> bool {
    is_lower(c) || is_upper(c) || is_digit(c)
}

/// The command name pattern: a lowercase letter, then lowercase letters,
/// digits or hyphens, not ending with a hyphen.
pub open spec fn valid_command_name(s: Seq<char>) -> bool {
    &&& s.len() > 0
    &&& is_lower(s[0])
    &&& forall|i: int| 0 < i < s.len() ==> is_lower(s[i]) || is_digit(s[i]) || s[i] == '-'
    &&& s.last() != '-'
}

/// Validate a command name against the required pattern.
#[verifier::loop_isolation(false)]
pub fn is_valid_command_name(name: &str) -> (r: bool)
    ensures
        r == valid_command_name(name@),
{
    let n = name.unicode_len();
    if n == 0 {
        return false;
    }
    let c0 = name.get_char(0);
    if !(c0 as u32 >= 97 && c0 as u32 <= 122) {
        return false;
    }
    let mut i: usize = 1;
    while i < n
        invariant
            1 <= i <= n,
            forall|j: int| 0 < j < i ==> is_lower(name@[j]) || is_digit(name@[j]) || name@[j]
                == '-',
        decreases n - i,
    {
        let c = name.get_char(i);
        let cu = c as u32;
        if !((cu >= 97 && cu <= 122) || (cu >= 48 && cu <= 57) || c == '-') {
            return false;
        }
        i = i + 1;
    }
    let last = name.get_char(n - 1);
    last != '-'
}

/// Hyphens replaced by underscores.
pub open spec fn dashes_to_underscores(s: Seq<char>) -> Seq<char> {
    s.map_values(|c: char| if c == '-' { '_' } else { c })
}

/// The identifier a command's import symbols use: `cmd_` followed by the
/// name with every non-alphanumeric character replaced by an underscore.
pub open spec fn spec_command_ident(name: Seq<char>) -> Seq<char> {
    "cmd_"@ + name.map_values(|c: char| if is_alnum(c) { c } else { '_' })
}

/// The package name used for composition: `wacli:cmd-<name>`.
pub open spec fn spec_package_name(name: Seq<char>) -> Seq<char> {
    "wacli:cmd-"@ + name
}

/// The import name resolution: prefer the fully qualified current-version
/// interface if the component imports it, then the unversioned package
/// form, then the bare base name; fall back to the fully qualified form.
pub open spec fn spec_import_name(imports: Seq<Seq<char>>, base: Seq<char>) -> Seq<char> {
    let fqn = "wacli:cli/"@ + base + "@2.0.0"@;
    let pkg = "wacli:cli/"@ + base;
    if imports.contains(fqn) {
        fqn
    } else if imports.contains(pkg) {
        pkg
    } else if imports.contains(base) {
        base
    } else {
        fqn
    }
}

/// Whether any of the listed names equals `s`.
#[verifier::loop_isolation(false)]
fn names_contain(names: &Vec<String>, s: &str) -> (r: bool)
    ensures
        r == names.deep_view().contains(s@),
{
    let n = names.len();
    let mut i: usize = 0;
    while i < n
        invariant
            0 <= i <= n,
            forall|j: int| 0 <= j < i ==> names.deep_view()[j] != s@,
        decreases n - i,
    {
        if str_eq(names[i].as_str(), s) {
            proof {
                assert(names.deep_view()[i as int] == s@);
            }
            return true;
        }
        i = i + 1;
    }
    proof {
        if names.deep_view().contains(s@) {
            let j = choose|j: int| 0 <= j < names.deep_view().len()
                && names.deep_view()[j] == s@;
            assert(names.deep_view()[j] != s@);
        }
    }
    false
}

impl CommandInfo {
    /// A variable-safe name: hyphens replaced with underscores.
    #[verifier::loop_isolation(false)]
    pub fn var_name(&self) -> (r: String)
        ensures
            r@ == dashes_to_underscores(self.name@),
    {
        let mut out = String::new();
        let n = self.name.as_str().unicode_len();
        let mut i: usize = 0;
        proof {
            assert(out@ =~= dashes_to_underscores(self.name@.take(0)));
        }
        while i < n
            invariant
                0 <= i <= n,
                out@ == dashes_to_underscores(self.name@.take(i as int)),
            decreases n - i,
        {
            let c = self.name.as_str().get_char(i);
            if c == '-' {
                push_char(&mut out, '_');
            } else {
                push_char(&mut out, c);
            }
            proof {
                assert(out@ =~= dashes_to_underscores(self.name@.take(i + 1)));
            }
            i = i + 1;
        }
        proof {
            assert(self.name@.take(n as int) =~= self.name@);
        }
        out
    }

    /// The package name for composition.
    pub fn package_name(&self) -> (r: String)
        ensures
            r@ == spec_package_name(self.name@),
    {
        let mut out = String::new();
        out.append("wacli:cmd-");
        out.append(self.name.as_str());
        out
    }

    /// Resolve the preferred import name for a given interface base name.
    pub fn import_name(&self, base: &str) -> (r: String)
        ensures
            r@ == spec_import_name(self.imports.deep_view(), base@),
    {
        let mut fqn = String::new();
        fqn.append("wacli:cli/");
        fqn.append(base);
        fqn.append("@2.0.0");
        if names_contain(&self.imports, fqn.as_str()) {
            return fqn;
        }
        let mut pkg = String::new();
        pkg.append("wacli:cli/");
        pkg.append(base);
        if names_contain(&self.imports, pkg.as_str()) {
            return pkg;
        }
        if names_contain(&self.imports, base) {
            return base.to_owned();
        }
        fqn
    }
}

/// The full import symbol of a command's run entry.
pub open spec fn spec_run_symbol(name: Seq<char>) -> Seq<char> {
    spec_command_ident(name) + "_run"@
}

/// The full import symbol of a command's metadata entry.
pub open spec fn spec_meta_symbol(name: Seq<char>) -> Seq<char> {
    spec_command_ident(name) + "_meta"@
}

/// Build the identifier a command's import symbols use.
#[verifier::loop_isolation(false)]
pub fn command_ident(name: &str) -> (r: String)
    ensures
        r@ == spec_command_ident(name@),
{
    let mut out = String::new();
    out.append("cmd_");
    let n = name.unicode_len();
    let mut i: usize = 0;
    proof {
        assert(out@ =~= "cmd_"@ + name@.take(0).map_values(
            |c: char| if is_alnum(c) { c } else { '_' },
        ));
    }
    while i < n
        invariant
            0 <= i <= n,
            out@ == "cmd_"@ + name@.take(i as int).map_values(
                |c: char| if is_alnum(c) { c } else { '_' },
            ),
        decreases n - i,
    {
        let c = name.get_char(i);
        let cu = c as u32;
        if (cu >= 97 && cu <= 122) || (cu >= 65 && cu <= 90) || (cu >= 48 && cu <= 57) {
            push_char(&mut out, c);
        } else {
            push_char(&mut out, '_');
        }
        proof {
            assert(out@ =~= "cmd_"@ + name@.take(i + 1).map_values(
                |c: char| if is_alnum(c) { c } else { '_' },
            ));
        }
        i = i + 1;
    }
    proof {
        assert(name@.take(n as int) =~= name@);
    }
    out
}

/// Whether a component's export list names the command interface, under its
/// versioned, unversioned or bare name.
pub open spec fn spec_exports_command(exports: Seq<Seq<char>>) -> bool {
    exports.contains("wacli:cli/command@2.0.0"@) || exports.contains("wacli:cli/command"@)
        || exports.contains("command"@)
}

/// Check whether an export list names the command interface.
pub fn exports_command_interface(exports: &Vec<String>) -> (r: bool)
    ensures
        r == spec_exports_command(exports.deep_view()),
{
    names_contain(exports, "wacli:cli/command@2.0.0") || names_contain(exports, "wacli:cli/command")
        || names_contain(exports, "command")
}

} // verus!
