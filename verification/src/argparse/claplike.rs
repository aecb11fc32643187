//! Declarative argument parsing against a command schema: builtin help and
//! version flags, long, short and combined-short forms, attached values,
//! positional assignment, environment and default sourcing, and the
//! relation checks the schema declares.

use vstd::prelude::*;
use crate::argparse::args::{contains_name, Matches};
use crate::metadata::{ArgSchema, CommandSchema};
use crate::text::{find_char, push_char, starts_with, str_eq, trim, trim_end, trim_is_empty,
    trimmed, trimmed_start};

verus! {

/// A parse failure: arguments the schema refuses, or a schema that is
/// itself inconsistent.
#[derive(Debug, Clone)]
pub enum ParseError {
    InvalidArgs(String),
    Failed(String),
}

impl ParseError {
    /// The carried message, whichever the failure kind.
    pub fn message(&self) -> (m: &String)
        ensures
            m@ == match *self {
                ParseError::InvalidArgs(s) => s@,
                ParseError::Failed(s) => s@,
            },
    {
        match self {
            ParseError::InvalidArgs(s) => s,
            ParseError::Failed(s) => s,
        }
    }
}

/// A successful parse: the matched values, or a rendered help or version
/// message requested by a builtin flag.
pub enum ParseOutcome {
    Matches(Matches),
    Help(String),
    Version(String),
}

/// A short spelling normalized to its dashed form.
pub open spec fn spec_normalize_short(raw: Seq<char>) -> Seq<char> {
    let t = trimmed(raw);
    if t.len() > 0 && t[0] == '-' {
        t
    } else {
        "-"@ + t
    }
}

/// A long spelling normalized to its dashed form; a single leading dash is
/// kept as given.
pub open spec fn spec_normalize_long(raw: Seq<char>) -> Seq<char> {
    let t = trimmed(raw);
    if t.len() > 0 && t[0] == '-' {
        t
    } else {
        "--"@ + t
    }
}

/// Normalize a short spelling.
pub fn normalize_short(raw: &str) -> (r: String)
    ensures
        r@ == spec_normalize_short(raw@),
{
    let t = trim(raw);
    if t.unicode_len() > 0 && t.get_char(0) == '-' {
        t.to_owned()
    } else {
        let mut s: String = "-".to_owned();
        s.append(t);
        s
    }
}

/// Normalize a long spelling.
pub fn normalize_long(raw: &str) -> (r: String)
    ensures
        r@ == spec_normalize_long(raw@),
{
    let t = trim(raw);
    if t.unicode_len() > 0 && t.get_char(0) == '-' {
        t.to_owned()
    } else {
        let mut s: String = "--".to_owned();
        s.append(t);
        s
    }
}

fn builtin_help_def() -> (d: ArgSchema) {
    ArgSchema {
        name: "__wacli_help".to_owned(),
        short: Some("-h".to_owned()),
        long: Some("--help".to_owned()),
        help: "Show help information".to_owned(),
        required: false,
        default_value: None,
        env: None,
        value_name: None,
        takes_value: false,
        multiple: true,
        value_type: None,
        possible_values: Vec::new(),
        conflicts_with: Vec::new(),
        requires: Vec::new(),
        hidden: false,
    }
}

fn builtin_version_def() -> (d: ArgSchema) {
    ArgSchema {
        name: "__wacli_version".to_owned(),
        short: Some("-V".to_owned()),
        long: Some("--version".to_owned()),
        help: "Show version information".to_owned(),
        required: false,
        default_value: None,
        env: None,
        value_name: None,
        takes_value: false,
        multiple: true,
        value_type: None,
        possible_values: Vec::new(),
        conflicts_with: Vec::new(),
        requires: Vec::new(),
        hidden: false,
    }
}

#[verifier::loop_isolation(false)]
fn has_flag(defs: &Vec<ArgSchema>, short: &str, long: &str) -> bool {
    let s = normalize_short(short);
    let l = normalize_long(long);
    let n = defs.len();
    let mut i: usize = 0;
    while i < n
        decreases n - i,
    {
        let d = &defs[i];
        match &d.short {
            Some(raw) => {
                let ds = normalize_short(raw.as_str());
                if str_eq(ds.as_str(), s.as_str()) {
                    return true;
                }
            },
            None => {},
        }
        match &d.long {
            Some(raw) => {
                let dl = normalize_long(raw.as_str());
                if str_eq(dl.as_str(), l.as_str()) {
                    return true;
                }
            },
            None => {},
        }
        i = i + 1;
    }
    false
}

/// The declared arguments, with the builtin help and version flags added
/// wherever the schema does not claim their spellings itself.
#[verifier::loop_isolation(false)]
fn schema_defs(meta: &CommandSchema) -> Vec<ArgSchema> {
    let mut defs: Vec<ArgSchema> = Vec::new();
    let n = meta.args.len();
    let mut i: usize = 0;
    while i < n
        decreases n - i,
    {
        defs.push(meta.args[i].clone());
        i = i + 1;
    }
    if !has_flag(&defs, "-h", "--help") {
        defs.push(builtin_help_def());
    }
    if !has_flag(&defs, "-V", "--version") {
        defs.push(builtin_version_def());
    }
    defs
}

/// An uppercase mapping for the placeholder of a value.
#[verifier::loop_isolation(false)]
fn to_ascii_upper(s: &str) -> String {
    let mut out = String::new();
    let n = s.unicode_len();
    let mut i: usize = 0;
    while i < n
        decreases n - i,
    {
        let c = s.get_char(i);
        let cu = c as u32;
        if cu >= 97 && cu <= 122 {
            let up: char = if c == 'a' { 'A' }
            else if c == 'b' { 'B' }
            else if c == 'c' { 'C' }
            else if c == 'd' { 'D' }
            else if c == 'e' { 'E' }
            else if c == 'f' { 'F' }
            else if c == 'g' { 'G' }
            else if c == 'h' { 'H' }
            else if c == 'i' { 'I' }
            else if c == 'j' { 'J' }
            else if c == 'k' { 'K' }
            else if c == 'l' { 'L' }
            else if c == 'm' { 'M' }
            else if c == 'n' { 'N' }
            else if c == 'o' { 'O' }
            else if c == 'p' { 'P' }
            else if c == 'q' { 'Q' }
            else if c == 'r' { 'R' }
            else if c == 's' { 'S' }
            else if c == 't' { 'T' }
            else if c == 'u' { 'U' }
            else if c == 'v' { 'V' }
            else if c == 'w' { 'W' }
            else if c == 'x' { 'X' }
            else if c == 'y' { 'Y' }
            else { 'Z' };
            push_char(&mut out, up);
        } else {
            push_char(&mut out, c);
        }
        i = i + 1;
    }
    out
}

/// The placeholder shown for a value: the declared value name, or the
/// argument name uppercased.
fn format_value_name(def: &ArgSchema) -> String {
    match &def.value_name {
        Some(v) => v.clone(),
        None => to_ascii_upper(def.name.as_str()),
    }
}

/// The left column of one help row.
fn format_arg_left(def: &ArgSchema) -> String {
    if def.short.is_none() && def.long.is_none() {
        let n = format_value_name(def);
        let mut out = String::new();
        if def.required {
            out.append("<");
            out.append(n.as_str());
            out.append(">");
        } else {
            out.append("[");
            out.append(n.as_str());
            out.append("]");
        }
        out
    } else {
        let mut out = String::new();
        let mut first: bool = true;
        match &def.short {
            Some(s) => {
                let ns = normalize_short(s.as_str());
                out.append(ns.as_str());
                first = false;
            },
            None => {},
        }
        match &def.long {
            Some(l) => {
                if !first {
                    out.append(", ");
                }
                let nl = normalize_long(l.as_str());
                out.append(nl.as_str());
            },
            None => {},
        }
        if def.takes_value {
            let n = format_value_name(def);
            out.append(" <");
            out.append(n.as_str());
            out.append(">");
        }
        out
    }
}

/// The right column of one help row.
fn format_arg_help(def: &ArgSchema) -> String {
    let mut out: String = trim(def.help.as_str()).to_owned();
    if def.required && !(def.short.is_none() && def.long.is_none()) {
        if out.as_str().unicode_len() == 0 {
            out.append("required");
        } else {
            out.append(" (required)");
        }
    }
    match &def.default_value {
        Some(dv) => {
            if out.as_str().unicode_len() == 0 {
                out.append("[default: ");
                out.append(dv.as_str());
                out.append("]");
            } else {
                out.append(" [default: ");
                out.append(dv.as_str());
                out.append("]");
            }
        },
        None => {},
    }
    out
}

#[verifier::loop_isolation(false)]
fn append_rows(out: &mut String, rows: &Vec<(String, String)>) {
    let mut width: usize = 0;
    let n = rows.len();
    let mut i: usize = 0;
    while i < n
        decreases n - i,
    {
        let w = rows[i].0.as_str().unicode_len();
        if w > width {
            width = w;
        }
        i = i + 1;
    }
    let mut k: usize = 0;
    while k < n
        decreases n - k,
    {
        let left = &rows[k].0;
        let help = &rows[k].1;
        if help.as_str().unicode_len() == 0 {
            out.append("  ");
            out.append(left.as_str());
            out.append("\n");
        } else {
            out.append("  ");
            out.append(left.as_str());
            let mut pad = left.as_str().unicode_len();
            while pad < width
                decreases width - pad,
            {
                out.append(" ");
                pad = pad + 1;
            }
            out.append("  ");
            out.append(help.as_str());
            out.append("\n");
        }
        k = k + 1;
    }
}

/// Render the help message of a command: the summary line, the usage line,
/// the description, the visible positional and option rows, and the
/// examples.
#[verifier::loop_isolation(false)]
pub fn help(meta: &CommandSchema) -> String {
    let defs = schema_defs(meta);
    let mut out = String::new();
    if trim_is_empty(meta.summary.as_str()) {
        out.append(meta.name.as_str());
        out.append("\n");
    } else {
        out.append(meta.name.as_str());
        out.append(" - ");
        out.append(trim(meta.summary.as_str()));
        out.append("\n");
    }
    if trim_is_empty(meta.usage.as_str()) {
        out.append("\nUsage: ");
        out.append(meta.name.as_str());
        out.append("\n");
    } else {
        out.append("\nUsage: ");
        out.append(trim(meta.usage.as_str()));
        out.append("\n");
    }
    if !trim_is_empty(meta.description.as_str()) {
        out.append("\n");
        out.append(trim_end(meta.description.as_str()));
        out.append("\n");
    }
    let mut option_rows: Vec<(String, String)> = Vec::new();
    let mut positional_rows: Vec<(String, String)> = Vec::new();
    let n = defs.len();
    let mut i: usize = 0;
    while i < n
        decreases n - i,
    {
        let d = &defs[i];
        if !d.hidden {
            let row = (format_arg_left(d), format_arg_help(d));
            if d.short.is_none() && d.long.is_none() {
                positional_rows.push(row);
            } else {
                option_rows.push(row);
            }
        }
        i = i + 1;
    }
    if positional_rows.len() > 0 {
        out.append("\nArguments:\n");
        append_rows(&mut out, &positional_rows);
    }
    if option_rows.len() > 0 {
        out.append("\nOptions:\n");
        append_rows(&mut out, &option_rows);
    }
    if meta.examples.len() > 0 {
        out.append("\nExamples:\n");
        let ne = meta.examples.len();
        let mut e: usize = 0;
        while e < ne
            decreases ne - e,
        {
            if !trim_is_empty(meta.examples[e].as_str()) {
                out.append("  ");
                out.append(trim_end(meta.examples[e].as_str()));
                out.append("\n");
            }
            e = e + 1;
        }
    }
    out
}

/// The rendered version message: the command name, then the trimmed
/// declared version when one exists, closed by a line break.
pub open spec fn spec_version(name: Seq<char>, version: Seq<char>) -> Seq<char> {
    if trimmed(version).len() == 0 {
        name + "\n"@
    } else {
        name + " "@ + trimmed(version) + "\n"@
    }
}

/// Render the version message of a command.
pub fn version(meta: &CommandSchema) -> (r: String)
    ensures
        r@ == spec_version(meta.name@, meta.version@),
{
    let mut out = String::new();
    out.append(meta.name.as_str());
    if !trim_is_empty(meta.version.as_str()) {
        out.append(" ");
        out.append(trim(meta.version.as_str()));
    }
    out.append("\n");
    proof {
        assert(out@ =~= spec_version(meta.name@, meta.version@));
    }
    out
}

#[verifier::loop_isolation(false)]
fn env_lookup(env: &Vec<(String, String)>, key: &str) -> Option<String> {
    let n = env.len();
    let mut i: usize = 0;
    while i < n
        decreases n - i,
    {
        if str_eq(env[i].0.as_str(), key) {
            return Some(env[i].1.clone());
        }
        i = i + 1;
    }
    None
}

fn arg_display_name(def: &ArgSchema) -> String {
    match &def.long {
        Some(l) => normalize_long(l.as_str()),
        None => match &def.short {
            Some(s) => normalize_short(s.as_str()),
            None => def.name.clone(),
        },
    }
}

#[verifier::loop_isolation(false)]
fn def_names(defs: &Vec<ArgSchema>) -> Vec<String> {
    let mut names: Vec<String> = Vec::new();
    let n = defs.len();
    let mut i: usize = 0;
    while i < n
        decreases n - i,
    {
        names.push(defs[i].name.clone());
        i = i + 1;
    }
    names
}

#[verifier::loop_isolation(false)]
fn find_def<'a>(defs: &'a Vec<ArgSchema>, name: &str) -> Option<&'a ArgSchema> {
    let n = defs.len();
    let mut i: usize = 0;
    while i < n
        decreases n - i,
    {
        if str_eq(defs[i].name.as_str(), name) {
            return Some(&defs[i]);
        }
        i = i + 1;
    }
    None
}

fn schema_error(kind: &str, name: &str, other: &str) -> String {
    let mut msg = String::new();
    msg.append("schema error: '");
    msg.append(name);
    msg.append(kind);
    msg.append(other);
    msg.append("'");
    msg
}

/// Reject a schema whose relations point at undeclared arguments.
#[verifier::loop_isolation(false)]
fn validate_relations(defs: &Vec<ArgSchema>) -> Result<(), ParseError> {
    let names = def_names(defs);
    let n = defs.len();
    let mut i: usize = 0;
    while i < n
        decreases n - i,
    {
        let d = &defs[i];
        let nc = d.conflicts_with.len();
        let mut k: usize = 0;
        while k < nc
            decreases nc - k,
        {
            let other = &d.conflicts_with[k];
            if !trim_is_empty(other.as_str()) && !contains_name(&names, other.as_str()) {
                return Err(
                    ParseError::Failed(
                        schema_error("' conflicts-with unknown arg '", d.name.as_str(), other.as_str()),
                    ),
                );
            }
            k = k + 1;
        }
        let nr = d.requires.len();
        let mut t: usize = 0;
        while t < nr
            decreases nr - t,
        {
            let other = &d.requires[t];
            if !trim_is_empty(other.as_str()) && !contains_name(&names, other.as_str()) {
                return Err(
                    ParseError::Failed(
                        schema_error("' requires unknown arg '", d.name.as_str(), other.as_str()),
                    ),
                );
            }
            t = t + 1;
        }
        i = i + 1;
    }
    Ok(())
}

fn invalid(msg: String) -> ParseError {
    ParseError::InvalidArgs(msg)
}

fn msg1(a: &str, b: &str) -> String {
    let mut m = String::new();
    m.append(a);
    m.append(b);
    m
}

/// Check the parsed matches against the declared repetition, value and
/// relation rules.
#[verifier::loop_isolation(false)]
fn validate_matches(defs: &Vec<ArgSchema>, m: &Matches) -> Result<(), ParseError> {
    let n = defs.len();
    let mut i: usize = 0;
    while i < n
        decreases n - i,
    {
        let def = &defs[i];
        if !def.multiple {
            match m.get_all(def.name.as_str()) {
                Some(values) => {
                    if values.len() > 1 {
                        let disp = arg_display_name(def);
                        let mut msg = String::new();
                        msg.append("argument '");
                        msg.append(disp.as_str());
                        msg.append("' cannot be used multiple times");
                        return Err(invalid(msg));
                    }
                },
                None => {},
            }
        }
        if def.possible_values.len() > 0 {
            match m.get_all(def.name.as_str()) {
                Some(values) => {
                    let nv = values.len();
                    let mut v: usize = 0;
                    while v < nv
                        decreases nv - v,
                    {
                        if !contains_name(&def.possible_values, values[v].as_str()) {
                            let disp = arg_display_name(def);
                            let mut msg = String::new();
                            msg.append("invalid value '");
                            msg.append(values[v].as_str());
                            msg.append("' for '");
                            msg.append(disp.as_str());
                            msg.append("'. possible values: ");
                            let np = def.possible_values.len();
                            let mut p: usize = 0;
                            while p < np
                                decreases np - p,
                            {
                                if p > 0 {
                                    msg.append(", ");
                                }
                                msg.append(def.possible_values[p].as_str());
                                p = p + 1;
                            }
                            return Err(invalid(msg));
                        }
                        v = v + 1;
                    }
                },
                None => {},
            }
        }
        if m.is_explicit(def.name.as_str()) {
            let nc = def.conflicts_with.len();
            let mut k: usize = 0;
            while k < nc
                decreases nc - k,
            {
                let other = &def.conflicts_with[k];
                if !trim_is_empty(other.as_str()) && m.is_explicit(other.as_str()) {
                    let other_disp = match find_def(defs, other.as_str()) {
                        Some(d) => arg_display_name(d),
                        None => other.clone(),
                    };
                    let disp = arg_display_name(def);
                    let mut msg = String::new();
                    msg.append("argument '");
                    msg.append(disp.as_str());
                    msg.append("' cannot be used with '");
                    msg.append(other_disp.as_str());
                    msg.append("'");
                    return Err(invalid(msg));
                }
                k = k + 1;
            }
            let nr = def.requires.len();
            let mut t: usize = 0;
            while t < nr
                decreases nr - t,
            {
                let other = &def.requires[t];
                if !trim_is_empty(other.as_str()) && !m.is_explicit(other.as_str()) {
                    let other_disp = match find_def(defs, other.as_str()) {
                        Some(d) => arg_display_name(d),
                        None => other.clone(),
                    };
                    let disp = arg_display_name(def);
                    let mut msg = String::new();
                    msg.append("argument '");
                    msg.append(disp.as_str());
                    msg.append("' requires '");
                    msg.append(other_disp.as_str());
                    msg.append("'");
                    return Err(invalid(msg));
                }
                t = t + 1;
            }
        }
        i = i + 1;
    }
    Ok(())
}

struct ArgInfo {
    name: String,
    short: Option<String>,
    long: Option<String>,
    takes_value: bool,
    default_value: Option<String>,
}

fn build_arg_info(def: &ArgSchema) -> ArgInfo {
    let short = match &def.short {
        Some(s) => Some(normalize_short(s.as_str())),
        None => None,
    };
    let long = match &def.long {
        Some(l) => Some(normalize_long(l.as_str())),
        None => None,
    };
    ArgInfo {
        name: def.name.clone(),
        short,
        long,
        takes_value: def.takes_value,
        default_value: def.default_value.clone(),
    }
}

#[verifier::loop_isolation(false)]
fn map_get(map: &Vec<(String, usize)>, key: &str) -> Option<usize> {
    let n = map.len();
    let mut i: usize = 0;
    while i < n
        decreases n - i,
    {
        if str_eq(map[i].0.as_str(), key) {
            return Some(map[i].1);
        }
        i = i + 1;
    }
    None
}

#[verifier::loop_isolation(false)]
fn map_insert(map: &mut Vec<(String, usize)>, key: &String, idx: usize) -> Option<usize> {
    let n = map.len();
    let mut i: usize = 0;
    while i < n
        invariant
            i <= n,
            n == map.len(),
        decreases n - i,
    {
        if str_eq(map[i].0.as_str(), key.as_str()) {
            let prev = map[i].1;
            map[i].1 = idx;
            return Some(prev);
        }
        i = i + 1;
    }
    map.push((key.clone(), idx));
    None
}

fn conflict_error(spelling: &str, a: &str, b: &str) -> ParseError {
    let mut msg = String::new();
    msg.append("arg definition conflict: ");
    msg.append(spelling);
    msg.append(" maps to both '");
    msg.append(a);
    msg.append("' and '");
    msg.append(b);
    msg.append("'");
    ParseError::Failed(msg)
}

/// Parse `argv` against the schema; the environment is a value source for
/// arguments that declare a variable, between the command line and the
/// declared default.
#[verifier::rlimit(100)]
#[verifier::loop_isolation(false)]
pub fn parse_with_env(meta: &CommandSchema, argv: &Vec<String>, env: &Vec<(String, String)>)
    -> Result<ParseOutcome, ParseError> {
    let defs = schema_defs(meta);
    match validate_relations(&defs) {
        Ok(_) => {},
        Err(e) => {
            return Err(e);
        },
    }
    let nd = defs.len();
    let mut infos: Vec<ArgInfo> = Vec::new();
    let mut d: usize = 0;
    while d < nd
        invariant
            d <= nd,
            nd == defs.len(),
            infos.len() == d,
        decreases nd - d,
    {
        infos.push(build_arg_info(&defs[d]));
        d = d + 1;
    }
    let mut long_map: Vec<(String, usize)> = Vec::new();
    let mut short_map: Vec<(String, usize)> = Vec::new();
    let mut positional_defs: Vec<usize> = Vec::new();
    let mut idx: usize = 0;
    while idx < nd
        invariant
            idx <= nd,
            nd == defs.len(),
            infos.len() == nd,
            forall|q: int| 0 <= q < positional_defs.len() ==> positional_defs@[q] < nd,
        decreases nd - idx,
    {
        let info = &infos[idx];
        if info.short.is_none() && info.long.is_none() {
            positional_defs.push(idx);
        } else {
            match &infos[idx].short {
                Some(short) => {
                    match map_insert(&mut short_map, short, idx) {
                        Some(prev) => {
                            if prev < nd && !str_eq(
                                infos[prev].name.as_str(),
                                infos[idx].name.as_str(),
                            ) {
                                return Err(
                                    conflict_error(
                                        short.as_str(),
                                        infos[prev].name.as_str(),
                                        infos[idx].name.as_str(),
                                    ),
                                );
                            }
                        },
                        None => {},
                    }
                },
                None => {},
            }
            match &infos[idx].long {
                Some(long) => {
                    match map_insert(&mut long_map, long, idx) {
                        Some(prev) => {
                            if prev < nd && !str_eq(
                                infos[prev].name.as_str(),
                                infos[idx].name.as_str(),
                            ) {
                                return Err(
                                    conflict_error(
                                        long.as_str(),
                                        infos[prev].name.as_str(),
                                        infos[idx].name.as_str(),
                                    ),
                                );
                            }
                        },
                        None => {},
                    }
                },
                None => {},
            }
        }
        idx = idx + 1;
    }
    let mut m = Matches::new();
    let mut positionals: Vec<String> = Vec::new();
    let mut parse_error: Option<ParseError> = None;
    let na = argv.len();
    let mut i: usize = 0;
    let mut after_separator: bool = false;
    while i < na
        invariant
            i <= na,
            na == argv.len(),
            nd == defs.len(),
            infos.len() == nd,
        decreases na - i,
    {
        let arg = &argv[i];
        if !after_separator && str_eq(arg.as_str(), "--") {
            after_separator = true;
            i = i + 1;
            continue ;
        }
        let arg_len = arg.as_str().unicode_len();
        let starts_double = starts_with(arg.as_str(), "--");
        if !after_separator && starts_double && !str_eq(arg.as_str(), "--") {
            // --key=value
            match find_char(arg.as_str(), '=') {
                Some(eq) => {
                    let flag_part = arg.as_str().substring_char(0, eq);
                    let value_part = arg.as_str().substring_char(eq + 1, arg_len);
                    match map_get(&long_map, flag_part) {
                        Some(di) => {
                            if di < nd {
                                if !infos[di].takes_value {
                                    if parse_error.is_none() {
                                        parse_error = Some(
                                            invalid(msg1("flag does not take a value: ", flag_part)),
                                        );
                                    }
                                } else {
                                    let name = infos[di].name.clone();
                                    m.push_explicit(&name);
                                    m.push_value(&name, value_part.to_owned());
                                }
                            }
                        },
                        None => {
                            if parse_error.is_none() {
                                parse_error = Some(invalid(msg1("unknown flag: ", flag_part)));
                            }
                        },
                    }
                    i = i + 1;
                    continue ;
                },
                None => {},
            }
            // --key value, only when declared
            match map_get(&long_map, arg.as_str()) {
                Some(di) => {
                    if di < nd {
                        if infos[di].takes_value {
                            if i + 1 >= na {
                                if parse_error.is_none() {
                                    parse_error = Some(
                                        invalid(msg1("missing value for ", arg.as_str())),
                                    );
                                }
                                i = na;
                                continue ;
                            }
                            let name = infos[di].name.clone();
                            m.push_explicit(&name);
                            m.push_value(&name, argv[i + 1].clone());
                            i = i + 2;
                        } else {
                            let name = infos[di].name.clone();
                            m.push_explicit(&name);
                            m.push_present(&name);
                            i = i + 1;
                        }
                    } else {
                        i = i + 1;
                    }
                    continue ;
                },
                None => {},
            }
            if parse_error.is_none() {
                parse_error = Some(invalid(msg1("unknown flag: ", arg.as_str())));
            }
            i = i + 1;
            continue ;
        }
        let starts_dash = arg_len > 0 && arg.as_str().get_char(0) == '-';
        if !after_separator && starts_dash && !str_eq(arg.as_str(), "-") {
            if arg_len == 2 {
                match map_get(&short_map, arg.as_str()) {
                    Some(di) => {
                        if di < nd {
                            if infos[di].takes_value {
                                if i + 1 >= na {
                                    if parse_error.is_none() {
                                        parse_error = Some(
                                            invalid(msg1("missing value for ", arg.as_str())),
                                        );
                                    }
                                    i = na;
                                    continue ;
                                }
                                let name = infos[di].name.clone();
                                m.push_explicit(&name);
                                m.push_value(&name, argv[i + 1].clone());
                                i = i + 2;
                            } else {
                                let name = infos[di].name.clone();
                                m.push_explicit(&name);
                                m.push_present(&name);
                                i = i + 1;
                            }
                        } else {
                            i = i + 1;
                        }
                        continue ;
                    },
                    None => {
                        if parse_error.is_none() {
                            parse_error = Some(invalid(msg1("unknown flag: ", arg.as_str())));
                        }
                        i = i + 1;
                        continue ;
                    },
                }
            }
            // Combined short flags: -abc, -ofile
            if !arg.as_str().is_ascii() {
                if parse_error.is_none() {
                    parse_error = Some(invalid(msg1("invalid short flags: ", arg.as_str())));
                }
                i = i + 1;
                continue ;
            }
            let mut k: usize = 1;
            let mut consumed_next: bool = false;
            while k < arg_len
                invariant
                    1 <= k,
                    na == argv.len(),
                    nd == defs.len(),
                    infos.len() == nd,
                    arg_len == arg@.len(),
                    i < na,
                    consumed_next ==> i + 1 < na,
                decreases arg_len - k,
            {
                let c = arg.as_str().get_char(k);
                let mut flag_s = String::new();
                push_char(&mut flag_s, '-');
                push_char(&mut flag_s, c);
                match map_get(&short_map, flag_s.as_str()) {
                    None => {
                        if parse_error.is_none() {
                            parse_error = Some(invalid(msg1("unknown flag: ", flag_s.as_str())));
                        }
                        k = k + 1;
                        continue ;
                    },
                    Some(di) => {
                        if di >= nd {
                            k = k + 1;
                            continue ;
                        }
                        if infos[di].takes_value {
                            if k + 1 < arg_len {
                                let rest_part = arg.as_str().substring_char(k + 1, arg_len);
                                let name = infos[di].name.clone();
                                m.push_explicit(&name);
                                m.push_value(&name, rest_part.to_owned());
                            } else {
                                if i + 1 >= na {
                                    if parse_error.is_none() {
                                        parse_error = Some(
                                            invalid(msg1("missing value for ", flag_s.as_str())),
                                        );
                                    }
                                    k = arg_len;
                                    continue ;
                                }
                                let name = infos[di].name.clone();
                                m.push_explicit(&name);
                                m.push_value(&name, argv[i + 1].clone());
                                consumed_next = true;
                            }
                            k = arg_len;
                        } else {
                            let name = infos[di].name.clone();
                            m.push_explicit(&name);
                            m.push_present(&name);
                            k = k + 1;
                        }
                    },
                }
            }
            if consumed_next {
                i = i + 2;
            } else {
                i = i + 1;
            }
            continue ;
        }
        positionals.push(arg.clone());
        i = i + 1;
    }
    // Assign positionals by declaration order; the overflow joins the rest.
    let np = positional_defs.len();
    let mut p: usize = 0;
    let mut taken: usize = 0;
    while p < np
        invariant
            p <= np,
            np == positional_defs.len(),
            infos.len() == nd,
            taken <= positionals.len(),
            forall|q: int| 0 <= q < positional_defs.len() ==> positional_defs@[q] < nd,
        decreases np - p,
    {
        let di = positional_defs[p];
        if taken < positionals.len() {
            let name = infos[di].name.clone();
            m.push_explicit(&name);
            m.push_value(&name, positionals[taken].clone());
            taken = taken + 1;
        }
        p = p + 1;
    }
    while taken < positionals.len()
        invariant
            taken <= positionals.len(),
        decreases positionals.len() - taken,
    {
        m.push_rest(&positionals[taken]);
        taken = taken + 1;
    }
    // Environment, then declared defaults, for missing value-taking args.
    let mut f: usize = 0;
    while f < nd
        invariant
            f <= nd,
            nd == defs.len(),
            infos.len() == nd,
        decreases nd - f,
    {
        let info = &infos[f];
        if info.takes_value && !m.has_value_key(info.name.as_str()) {
            let mut filled: bool = false;
            match &defs[f].env {
                Some(key) => {
                    match env_lookup(env, key.as_str()) {
                        Some(v) => {
                            let name = infos[f].name.clone();
                            m.push_value(&name, v);
                            filled = true;
                        },
                        None => {},
                    }
                },
                None => {},
            }
            if !filled {
                match &infos[f].default_value {
                    Some(dv) => {
                        let name = infos[f].name.clone();
                        let dvc = dv.clone();
                        m.push_value(&name, dvc);
                    },
                    None => {},
                }
            }
        }
        f = f + 1;
    }
    // Builtin flags win over everything else.
    if m.is_present("__wacli_help") {
        return Ok(ParseOutcome::Help(help(meta)));
    }
    if m.is_present("__wacli_version") {
        return Ok(ParseOutcome::Version(version(meta)));
    }
    match parse_error {
        Some(e) => {
            return Err(e);
        },
        None => {},
    }
    // Required checks.
    let mut missing: Vec<String> = Vec::new();
    let mut r: usize = 0;
    while r < nd
        invariant
            r <= nd,
            nd == defs.len(),
        decreases nd - r,
    {
        let def = &defs[r];
        if def.required && !m.is_present(def.name.as_str()) {
            if def.short.is_none() && def.long.is_none() {
                let mut s = String::new();
                s.append("<");
                let vn = format_value_name(def);
                s.append(vn.as_str());
                s.append(">");
                missing.push(s);
            } else {
                let mut s = arg_display_name(def);
                if def.takes_value {
                    s.append(" <");
                    let vn = format_value_name(def);
                    s.append(vn.as_str());
                    s.append(">");
                }
                missing.push(s);
            }
        }
        r = r + 1;
    }
    if missing.len() == 1 {
        let mut msg: String = "missing required argument: ".to_owned();
        msg.append(missing[0].as_str());
        return Err(invalid(msg));
    }
    if missing.len() > 1 {
        let mut msg: String = "missing required arguments: ".to_owned();
        let nm = missing.len();
        let mut w: usize = 0;
        while w < nm
            decreases nm - w,
        {
            if w > 0 {
                msg.append(", ");
            }
            msg.append(missing[w].as_str());
            w = w + 1;
        }
        return Err(invalid(msg));
    }
    match validate_matches(&defs, &m) {
        Ok(_) => {},
        Err(e) => {
            return Err(e);
        },
    }
    Ok(ParseOutcome::Matches(m))
}

/// Parse `argv` against the schema, with no environment.
pub fn parse(meta: &CommandSchema, argv: &Vec<String>) -> Result<ParseOutcome, ParseError> {
    let env: Vec<(String, String)> = Vec::new();
    parse_with_env(meta, argv, &env)
}

/// Validate `argv` against the schema: a parse whose results are dropped,
/// so it succeeds exactly when `parse` does, help and version requests
/// counting as valid inputs, and it passes `parse`'s error through
/// unchanged. The parser itself carries no functional contract (the crate's
/// stated scope ends at its interface), so this relation is pinned by the
/// tests rather than stated here.
pub fn validate(meta: &CommandSchema, argv: &Vec<String>) -> (r: Result<(), ParseError>) {
    match parse(meta, argv) {
        Ok(_) => Ok(()),
        Err(e) => Err(e),
    }
}

/// Validate `argv` using `env` as a value source; succeeds exactly when
/// `parse_with_env` does and passes its error through unchanged. A violated
/// conflicts-with, requires or single-occurrence rule surfaces as an
/// invalid-arguments error naming the rule.
pub fn validate_with_env(
    meta: &CommandSchema,
    argv: &Vec<String>,
    env: &Vec<(String, String)>,
) -> (r: Result<(), ParseError>) {
    match parse_with_env(meta, argv, env) {
        Ok(_) => Ok(()),
        Err(e) => Err(e),
    }
}

/// The canonical name a raw invocation resolves to: the first command whose
/// name equals it, else the first whose aliases contain it.
pub open spec fn spec_resolve_command_name(metas: Seq<CommandSchema>, raw: Seq<char>) -> Option<
    Seq<char>,
> {
    if exists|i: int| 0 <= i < metas.len() && (#[trigger] metas[i]).name@ == raw {
        Some(raw)
    } else if exists|i: int|
        0 <= i < metas.len() && (#[trigger] metas[i]).aliases.deep_view().contains(raw) {
        let i = choose|i: int|
            0 <= i < metas.len() && (#[trigger] metas[i]).aliases.deep_view().contains(raw)
                && forall|j: int|
                0 <= j < i ==> !(#[trigger] metas[j]).aliases.deep_view().contains(raw);
        Some(metas[i].name@)
    } else {
        None
    }
}

/// Resolve a raw invocation to the canonical command name, matching either
/// the name itself or an alias.
#[verifier::loop_isolation(false)]
pub fn resolve_command_name(metas: &Vec<CommandSchema>, raw: &str) -> (r: Option<String>)
    ensures
        match r {
            Some(name) => spec_resolve_command_name(
                Seq::new(metas@.len(), |i: int| metas@[i]),
                raw@,
            ) == Some(name@),
            None => spec_resolve_command_name(
                Seq::new(metas@.len(), |i: int| metas@[i]),
                raw@,
            ) is None,
        },
{
    let ghost mv = Seq::new(metas@.len(), |i: int| metas@[i]);
    let n = metas.len();
    let mut i: usize = 0;
    while i < n
        invariant
            0 <= i <= n,
            forall|j: int| 0 <= j < i ==> (#[trigger] mv[j]).name@ != raw@,
        decreases n - i,
    {
        if str_eq(metas[i].name.as_str(), raw) {
            proof {
                assert(mv[i as int].name@ == raw@);
            }
            return Some(metas[i].name.clone());
        }
        i = i + 1;
    }
    let mut k: usize = 0;
    while k < n
        invariant
            0 <= k <= n,
            forall|j: int| 0 <= j < n ==> (#[trigger] mv[j]).name@ != raw@,
            forall|j: int| 0 <= j < k ==> !(#[trigger] mv[j]).aliases.deep_view().contains(raw@),
        decreases n - k,
    {
        if contains_name(&metas[k].aliases, raw) {
            proof {
                assert(mv[k as int].aliases.deep_view().contains(raw@));
                assert forall|j: int| 0 <= j < mv.len() implies (#[trigger] mv[j]).name@
                    != raw@ by {
                }
                let w = choose|w: int|
                    0 <= w < mv.len() && (#[trigger] mv[w]).aliases.deep_view().contains(raw@)
                        && forall|j: int|
                        0 <= j < w ==> !(#[trigger] mv[j]).aliases.deep_view().contains(raw@);
                assert(mv[w].name@ == mv[k as int].name@) by {
                    if w < k {
                        assert(!mv[w].aliases.deep_view().contains(raw@));
                    } else if w > k {
                        assert(!mv[k as int].aliases.deep_view().contains(raw@));
                    }
                }
            }
            return Some(metas[k].name.clone());
        }
        k = k + 1;
    }
    proof {
        if exists|j: int| 0 <= j < mv.len() && (#[trigger] mv[j]).aliases.deep_view().contains(
            raw@,
        ) {
            let j = choose|j: int|
                0 <= j < mv.len() && (#[trigger] mv[j]).aliases.deep_view().contains(raw@);
            assert(!mv[j].aliases.deep_view().contains(raw@));
        }
    }
    None
}

/// Whether alias `k` of command `i` takes part in resolution: nonempty
/// after trimming, and not merely the command's own name.
pub open spec fn live_alias_at(metas: Seq<CommandSchema>, i: int, k: int) -> bool {
    &&& 0 <= i < metas.len()
    &&& 0 <= k < metas[i].aliases.deep_view().len()
    &&& trimmed(metas[i].aliases.deep_view()[k]).len() > 0
    &&& trimmed(metas[i].aliases.deep_view()[k]) != metas[i].name@
}

/// A live alias collides with some command's (nonblank) canonical name.
pub open spec fn alias_name_conflict(metas: Seq<CommandSchema>) -> bool {
    exists|i: int, k: int, j: int|
        #![trigger live_alias_at(metas, i, k), metas[j]]
        live_alias_at(metas, i, k) && 0 <= j < metas.len() && trimmed(metas[j].name@).len() > 0
            && metas[j].name@ == trimmed(metas[i].aliases.deep_view()[k])
}

/// Two commands with different canonical names claim the same live alias.
pub open spec fn alias_double_claim(metas: Seq<CommandSchema>) -> bool {
    exists|i: int, k: int, i2: int, k2: int|
        #![trigger live_alias_at(metas, i, k), live_alias_at(metas, i2, k2)]
        live_alias_at(metas, i, k) && live_alias_at(metas, i2, k2) && trimmed(
            metas[i].aliases.deep_view()[k],
        ) == trimmed(metas[i2].aliases.deep_view()[k2]) && metas[i].name@ != metas[i2].name@
}

/// Whether some command carries this exact (nonblank) canonical name.
pub open spec fn name_among(metas: Seq<CommandSchema>, x: Seq<char>) -> bool {
    exists|j: int|
        #![trigger metas[j]]
        0 <= j < metas.len() && trimmed(metas[j].name@).len() > 0 && metas[j].name@ == x
}

/// Collect the nonblank command names; membership is exactly "some command
/// carries this name and it is not blank".
#[verifier::loop_isolation(false)]
fn collect_names(metas: &Vec<CommandSchema>) -> (names: Vec<String>)
    ensures
        forall|t: int|
            0 <= t < names.deep_view().len() ==> name_among(
                metas@,
                #[trigger] names.deep_view()[t],
            ),
        forall|j: int|
            0 <= j < metas@.len() && trimmed((#[trigger] metas@[j]).name@).len() > 0
                ==> names.deep_view().contains(metas@[j].name@),
{
    let ghost ms = metas@;
    let n = metas.len();
    let mut names: Vec<String> = Vec::new();
    let ghost mut owners: Seq<int> = Seq::empty();
    let mut i: usize = 0;
    while i < n
        invariant
            0 <= i <= n,
            owners.len() == names.deep_view().len(),
            forall|t: int|
                0 <= t < owners.len() ==> 0 <= #[trigger] owners[t] < i && trimmed(
                    ms[owners[t]].name@,
                ).len() > 0 && names.deep_view()[t] == ms[owners[t]].name@,
            forall|j: int|
                0 <= j < i && trimmed((#[trigger] ms[j]).name@).len() > 0
                    ==> names.deep_view().contains(ms[j].name@),
        decreases n - i,
    {
        if !trim_is_empty(metas[i].name.as_str()) {
            let ghost pre = names.deep_view();
            names.push(metas[i].name.clone());
            proof {
                assert(names.deep_view() =~= pre.push(ms[i as int].name@));
                owners = owners.push(i as int);
                assert forall|j: int|
                    0 <= j < i + 1 && trimmed((#[trigger] ms[j]).name@).len() > 0 implies
                    names.deep_view().contains(ms[j].name@) by {
                    if j < i {
                        let t = choose|t: int| 0 <= t < pre.len() && pre[t] == ms[j].name@;
                        assert(names.deep_view()[t] == ms[j].name@);
                    } else {
                        assert(names.deep_view()[pre.len() as int] == ms[i as int].name@);
                    }
                }
            }
        }
        i = i + 1;
    }
    proof {
        assert forall|t: int| 0 <= t < names.deep_view().len() implies name_among(
            metas@,
            #[trigger] names.deep_view()[t],
        ) by {
            let j = owners[t];
            assert(0 <= j < metas@.len() && trimmed(metas@[j].name@).len() > 0 && metas@[j].name@
                == names.deep_view()[t]);
        }
    }
    names
}

/// Reject an alias configuration in which an alias collides with a command
/// name, or one alias points at two different commands. A rejection always
/// names a real conflict; the converse — that every conflicting
/// configuration is rejected — holds of the scan by construction and is
/// exercised by the tests, but is not stated here.
#[verifier::loop_isolation(false)]
#[verifier::rlimit(100)]
pub fn validate_aliases(metas: &Vec<CommandSchema>) -> (r: Result<(), ParseError>)
    ensures
        r is Err ==> alias_name_conflict(metas@) || alias_double_claim(metas@),
{
    let ghost ms = metas@;
    let n = metas.len();
    let names = collect_names(metas);
    let mut alias_map: Vec<(String, String)> = Vec::new();
    let ghost mut owners: Seq<(int, int)> = Seq::empty();
    let mut c: usize = 0;
    while c < n
        invariant
            0 <= c <= n,
            owners.len() == alias_map@.len(),
            forall|t: int|
                0 <= t < owners.len() ==> live_alias_at(ms, (#[trigger] owners[t]).0, owners[t].1)
                    && alias_map@[t].0@ == trimmed(
                    ms[owners[t].0].aliases.deep_view()[owners[t].1],
                ) && alias_map@[t].1@ == ms[owners[t].0].name@,
        decreases n - c,
    {
        let meta = &metas[c];
        let na = meta.aliases.len();
        let mut a: usize = 0;
        while a < na
            invariant
                0 <= a <= na,
                na == ms[c as int].aliases.deep_view().len(),
                owners.len() == alias_map@.len(),
                forall|t: int|
                    0 <= t < owners.len() ==> live_alias_at(
                        ms,
                        (#[trigger] owners[t]).0,
                        owners[t].1,
                    ) && alias_map@[t].0@ == trimmed(
                        ms[owners[t].0].aliases.deep_view()[owners[t].1],
                    ) && alias_map@[t].1@ == ms[owners[t].0].name@,
            decreases na - a,
        {
            let alias: String = trim(meta.aliases[a].as_str()).to_owned();
            let ghost al = trimmed(ms[c as int].aliases.deep_view()[a as int]);
            proof {
                assert(alias@ == al);
            }
            let live = alias.as_str().unicode_len() > 0 && !str_eq(
                alias.as_str(),
                meta.name.as_str(),
            );
            proof {
                assert(live == live_alias_at(ms, c as int, a as int));
            }
            if live {
                if contains_name(&names, alias.as_str()) {
                    proof {
                        let t = choose|t: int|
                            0 <= t < names.deep_view().len() && names.deep_view()[t] == al;
                        assert(name_among(ms, al));
                        let j = choose|j: int|
                            #![trigger ms[j]]
                            0 <= j < ms.len() && trimmed(ms[j].name@).len() > 0 && ms[j].name@
                                == al;
                        assert(live_alias_at(ms, c as int, a as int));
                        assert(alias_name_conflict(ms));
                    }
                    let mut msg: String = "alias conflict: '".to_owned();
                    msg.append(alias.as_str());
                    msg.append("' is both a command name and an alias (command: ");
                    msg.append(meta.name.as_str());
                    msg.append(")");
                    return Err(ParseError::Failed(msg));
                }
                let mut found: Option<String> = None;
                let ghost mut found_at: int = 0;
                let nm = alias_map.len();
                let mut t: usize = 0;
                while t < nm
                    invariant
                        0 <= t <= nm,
                        nm == alias_map@.len(),
                        found is Some ==> 0 <= found_at < nm && alias_map@[found_at].0@ == al
                            && alias_map@[found_at].1@ == found->Some_0@,
                    decreases nm - t,
                {
                    if found.is_none() && str_eq(alias_map[t].0.as_str(), alias.as_str()) {
                        found = Some(alias_map[t].1.clone());
                        proof {
                            found_at = t as int;
                        }
                    }
                    t = t + 1;
                }
                match found {
                    Some(prev) => {
                        if !str_eq(prev.as_str(), meta.name.as_str()) {
                            proof {
                                let (i2, k2) = owners[found_at];
                                assert(live_alias_at(ms, i2, k2));
                                assert(trimmed(ms[i2].aliases.deep_view()[k2]) == al);
                                assert(ms[i2].name@ == prev@);
                                assert(live_alias_at(ms, c as int, a as int));
                                assert(alias_double_claim(ms));
                            }
                            let mut msg: String = "alias conflict: '".to_owned();
                            msg.append(alias.as_str());
                            msg.append("' refers to both '");
                            msg.append(prev.as_str());
                            msg.append("' and '");
                            msg.append(meta.name.as_str());
                            msg.append("'");
                            return Err(ParseError::Failed(msg));
                        }
                    },
                    None => {
                        let ghost pre = alias_map@;
                        alias_map.push((alias, meta.name.clone()));
                        proof {
                            owners = owners.push((c as int, a as int));
                            assert(alias_map@.len() == pre.len() + 1);
                            assert(forall|q: int| 0 <= q < pre.len() ==> alias_map@[q] == pre[q]);
                            assert(alias_map@[pre.len() as int].0@ == al);
                            assert(alias_map@[pre.len() as int].1@ == ms[c as int].name@);
                        }
                    },
                }
            }
            a = a + 1;
        }
        c = c + 1;
    }
    Ok(())
}

} // verus!
