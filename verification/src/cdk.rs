//! The command development kit: the execution context, the declarative
//! metadata builders, and the command trait a plugin implements.
//!
//! Host-facing input and output (standard streams, the file system, pipes,
//! process exit) happen outside the library; a command receives its argument
//! vector and environment as plain values.

pub mod args;

use vstd::prelude::*;
use crate::metadata::{ArgDef, CommandMeta};
use crate::text::{trim, trimmed};

verus! {

use crate::argparse::args::{spec_positionals, spec_value, spec_flag, values_of, Schema};

/// Exit code type for commands.
pub type ExitCode = u32;

/// How a command run ends: an exit code, or a classified failure.
#[derive(Debug, Clone)]
pub enum CommandError {
    UnknownCommand(String),
    InvalidArgs(String),
    Failed(String),
    Io(String),
}

/// The result a command run yields.
pub type CommandResult = Result<ExitCode, CommandError>;

/// Trait for implementing a command: its declared metadata and its entry
/// point.
pub trait Command {
    /// Return command metadata.
    fn meta() -> CommandMeta;

    /// Execute the command with the given arguments.
    fn run(argv: Vec<String>) -> CommandResult;
}

/// Execution context for commands: the argument vector and the environment
/// the host handed over.
#[derive(Debug, Clone)]
pub struct Context {
    pub argv: Vec<String>,
    pub env: Vec<(String, String)>,
}

impl Context {
    /// Wrap the argument vector and environment the host provides.
    pub fn new(argv: Vec<String>, env: Vec<(String, String)>) -> (c: Context)
        ensures
            c.argv == argv,
            c.env == env,
    {
        Context { argv, env }
    }

    /// Get the positional argument at the given index.
    pub fn arg(&self, index: usize) -> (r: Option<String>)
        ensures
            r.deep_view() == {
                let ps = spec_positionals(self.argv.deep_view(), Seq::empty(), false);
                if index < ps.len() {
                    Some(ps[index as int])
                } else {
                    None
                }
            },
    {
        crate::argparse::args::positional(&self.argv, index)
    }

    /// Get all positional arguments.
    pub fn positional_args(&self) -> (r: Vec<String>)
        ensures
            r.deep_view() == spec_positionals(self.argv.deep_view(), Seq::empty(), false),
    {
        crate::argparse::args::positional_args(&self.argv)
    }

    /// Get the positional argument at the given index using a schema.
    pub fn arg_with_schema(&self, index: usize, schema: &Schema) -> (r: Option<String>)
        ensures
            r.deep_view() == {
                let ps = spec_positionals(self.argv.deep_view(), schema.flags(), false);
                if index < ps.len() {
                    Some(ps[index as int])
                } else {
                    None
                }
            },
    {
        crate::argparse::args::positional_with_schema(&self.argv, index, schema)
    }

    /// Get all positional arguments using a schema to skip values of
    /// declared flags.
    pub fn positional_args_with_schema(&self, schema: &Schema) -> (r: Vec<String>)
        ensures
            r.deep_view() == spec_positionals(self.argv.deep_view(), schema.flags(), false),
    {
        crate::argparse::args::positional_args_with_schema(&self.argv, schema)
    }

    /// Check if a flag such as `--help` exists, under any of the given
    /// spellings.
    pub fn flag(&self, names: &Vec<String>) -> (r: bool)
        ensures
            r == spec_flag(self.argv.deep_view(), names.deep_view()),
    {
        crate::argparse::args::flag(&self.argv, names)
    }

    /// Get a flag value such as `--name=value` or `--name value`.
    pub fn value(&self, name: &str) -> (r: Option<String>)
        ensures
            r.deep_view() == spec_value(self.argv.deep_view(), name@),
    {
        crate::argparse::args::value(&self.argv, name)
    }

    /// Require a positional argument by index; its absence is an
    /// invalid-arguments failure naming the argument.
    pub fn require_arg(&self, index: usize, name: &str) -> (r: Result<String, CommandError>)
        ensures
            match r {
                Ok(v) => {
                    let ps = spec_positionals(self.argv.deep_view(), Seq::empty(), false);
                    index < ps.len() && v@ == ps[index as int]
                },
                Err(e) => index >= spec_positionals(
                    self.argv.deep_view(),
                    Seq::empty(),
                    false,
                ).len() && (e matches CommandError::InvalidArgs(m) && m@
                    == "missing required argument: "@ + name@),
            },
    {
        match self.arg(index) {
            Some(v) => Ok(v),
            None => {
                let mut msg: String = "missing required argument: ".to_owned();
                msg.append(name);
                Err(CommandError::InvalidArgs(msg))
            },
        }
    }
}

/// Create a metadata builder.
pub fn meta(name: &str) -> (b: MetaBuilder)
    ensures
        b.name@ == name@,
        b.summary@ == Seq::<char>::empty(),
        b.usage@ == Seq::<char>::empty(),
        b.aliases.deep_view() == Seq::<Seq<char>>::empty(),
        b.version@ == Seq::<char>::empty(),
        !b.hidden,
        b.description@ == Seq::<char>::empty(),
        b.examples.deep_view() == Seq::<Seq<char>>::empty(),
        b.args@.len() == 0,
{
    MetaBuilder::new(name)
}

/// Create an argument definition builder.
pub fn arg(name: &str) -> (b: ArgBuilder)
    ensures
        b.name@ == name@,
        b.short is None,
        b.long is None,
        b.help@ == Seq::<char>::empty(),
        !b.required,
        b.default_value is None,
        b.value_name is None,
        b.takes_value is None,
{
    ArgBuilder::new(name)
}

/// Parse `argv` according to the declarative argument definitions.
pub fn parse(meta: &CommandMeta, argv: &Vec<String>) -> Result<
    crate::argparse::args::Matches,
    CommandError,
> {
    args::parse(meta, argv)
}

/// Builder for `CommandMeta`.
pub struct MetaBuilder {
    pub name: String,
    pub summary: String,
    pub usage: String,
    pub aliases: Vec<String>,
    pub version: String,
    pub hidden: bool,
    pub description: String,
    pub examples: Vec<String>,
    pub args: Vec<ArgDef>,
}

impl MetaBuilder {
    /// A builder for a command of the given name, everything else empty.
    pub fn new(name: &str) -> (b: MetaBuilder)
        ensures
            b.name@ == name@,
            b.summary@ == Seq::<char>::empty(),
            b.usage@ == Seq::<char>::empty(),
            b.aliases.deep_view() == Seq::<Seq<char>>::empty(),
            b.version@ == Seq::<char>::empty(),
            !b.hidden,
            b.description@ == Seq::<char>::empty(),
            b.examples.deep_view() == Seq::<Seq<char>>::empty(),
            b.args@.len() == 0,
    {
        let b = MetaBuilder {
            name: name.to_owned(),
            summary: String::new(),
            usage: String::new(),
            aliases: Vec::new(),
            version: String::new(),
            hidden: false,
            description: String::new(),
            examples: Vec::new(),
            args: Vec::new(),
        };
        proof {
            assert(b.aliases.deep_view() =~= Seq::<Seq<char>>::empty());
            assert(b.examples.deep_view() =~= Seq::<Seq<char>>::empty());
        }
        b
    }

    /// Set the one-line summary.
    pub fn summary(self, summary: &str) -> (b: MetaBuilder)
        ensures
            b == (MetaBuilder { summary: b.summary, ..self }),
            b.summary@ == summary@,
    {
        MetaBuilder { summary: summary.to_owned(), ..self }
    }

    /// Set the usage line.
    pub fn usage(self, usage: &str) -> (b: MetaBuilder)
        ensures
            b == (MetaBuilder { usage: b.usage, ..self }),
            b.usage@ == usage@,
    {
        MetaBuilder { usage: usage.to_owned(), ..self }
    }

    /// Declare one more alias.
    pub fn alias(self, alias: &str) -> (b: MetaBuilder)
        ensures
            b == (MetaBuilder { aliases: b.aliases, ..self }),
            b.aliases.deep_view() == self.aliases.deep_view().push(alias@),
    {
        let mut b = self;
        let ghost pre = b.aliases.deep_view();
        b.aliases.push(alias.to_owned());
        proof {
            assert(b.aliases.deep_view() =~= pre.push(alias@));
        }
        b
    }

    /// Set the declared version.
    pub fn version(self, version: &str) -> (b: MetaBuilder)
        ensures
            b == (MetaBuilder { version: b.version, ..self }),
            b.version@ == version@,
    {
        MetaBuilder { version: version.to_owned(), ..self }
    }

    /// Hide the command from listings.
    pub fn hidden(self) -> (b: MetaBuilder)
        ensures
            b == (MetaBuilder { hidden: true, ..self }),
    {
        MetaBuilder { hidden: true, ..self }
    }

    /// Set the long description.
    pub fn description(self, description: &str) -> (b: MetaBuilder)
        ensures
            b == (MetaBuilder { description: b.description, ..self }),
            b.description@ == description@,
    {
        MetaBuilder { description: description.to_owned(), ..self }
    }

    /// Declare one more example.
    pub fn example(self, example: &str) -> (b: MetaBuilder)
        ensures
            b == (MetaBuilder { examples: b.examples, ..self }),
            b.examples.deep_view() == self.examples.deep_view().push(example@),
    {
        let mut b = self;
        let ghost pre = b.examples.deep_view();
        b.examples.push(example.to_owned());
        proof {
            assert(b.examples.deep_view() =~= pre.push(example@));
        }
        b
    }

    /// Declare one more argument.
    pub fn arg(self, arg: ArgBuilder) -> (b: MetaBuilder)
        ensures
            b == (MetaBuilder { args: b.args, ..self }),
            b.args@.len() == self.args@.len() + 1,
            b.args@.take(self.args@.len() as int) == self.args@,
            crate::metadata::arg_def_view(b.args@.last()) == built_arg_view(arg),
    {
        let mut b = self;
        let ghost pre = b.args@;
        b.args.push(arg.build());
        proof {
            assert(b.args@.take(pre.len() as int) =~= pre);
        }
        b
    }

    /// Finish the metadata.
    pub fn build(self) -> (m: CommandMeta)
        ensures
            m.name == self.name,
            m.summary == self.summary,
            m.usage == self.usage,
            m.aliases == self.aliases,
            m.version == self.version,
            m.hidden == self.hidden,
            m.description == self.description,
            m.examples == self.examples,
            m.args == self.args,
    {
        CommandMeta {
            name: self.name,
            summary: self.summary,
            usage: self.usage,
            aliases: self.aliases,
            version: self.version,
            hidden: self.hidden,
            description: self.description,
            examples: self.examples,
            args: self.args,
        }
    }
}

/// A declared spelling normalized at build time: trimmed, and given the
/// dashed prefix when it lacks a dash.
pub open spec fn spec_built_spelling(raw: Seq<char>, dashes: Seq<char>) -> Seq<char> {
    let t = trimmed(raw);
    if t.len() > 0 && t[0] == '-' {
        t
    } else {
        dashes + t
    }
}

/// The shape of the definition a builder yields: normalized spellings, and
/// a takes-value flag inferred for positionals and for value-named or
/// defaulted options unless set explicitly.
pub open spec fn built_arg_view(b: ArgBuilder) -> crate::metadata::ArgView {
    let short = match b.short.deep_view() {
        Some(s) => Some(spec_built_spelling(s, "-"@)),
        None => None::<Seq<char>>,
    };
    let long = match b.long.deep_view() {
        Some(l) => Some(spec_built_spelling(l, "--"@)),
        None => None::<Seq<char>>,
    };
    let inferred = if b.short is None && b.long is None {
        true
    } else {
        b.value_name is Some || b.default_value is Some
    };
    crate::metadata::ArgView {
        name: b.name@,
        short,
        long,
        help: b.help@,
        required: b.required,
        default_value: b.default_value.deep_view(),
        env: None,
        value_name: b.value_name.deep_view(),
        takes_value: match b.takes_value {
            Some(t) => t,
            None => inferred,
        },
        multiple: true,
        value_type: None,
        possible_values: Seq::empty(),
        conflicts_with: Seq::empty(),
        requires: Seq::empty(),
        hidden: false,
    }
}

/// Builder for `ArgDef`.
pub struct ArgBuilder {
    pub name: String,
    pub short: Option<String>,
    pub long: Option<String>,
    pub help: String,
    pub required: bool,
    pub default_value: Option<String>,
    pub value_name: Option<String>,
    pub takes_value: Option<bool>,
}

impl ArgBuilder {
    /// A builder for an argument of the given name, everything else unset.
    pub fn new(name: &str) -> (b: ArgBuilder)
        ensures
            b.name@ == name@,
            b.short is None,
            b.long is None,
            b.help@ == Seq::<char>::empty(),
            !b.required,
            b.default_value is None,
            b.value_name is None,
            b.takes_value is None,
    {
        ArgBuilder {
            name: name.to_owned(),
            short: None,
            long: None,
            help: String::new(),
            required: false,
            default_value: None,
            value_name: None,
            takes_value: None,
        }
    }

    /// Set the short spelling.
    pub fn short(self, short: &str) -> (b: ArgBuilder)
        ensures
            b == (ArgBuilder { short: b.short, ..self }),
            b.short.deep_view() == Some(short@),
    {
        ArgBuilder { short: Some(short.to_owned()), ..self }
    }

    /// Set the long spelling.
    pub fn long(self, long: &str) -> (b: ArgBuilder)
        ensures
            b == (ArgBuilder { long: b.long, ..self }),
            b.long.deep_view() == Some(long@),
    {
        ArgBuilder { long: Some(long.to_owned()), ..self }
    }

    /// Set the help text.
    pub fn help(self, help: &str) -> (b: ArgBuilder)
        ensures
            b == (ArgBuilder { help: b.help, ..self }),
            b.help@ == help@,
    {
        ArgBuilder { help: help.to_owned(), ..self }
    }

    /// Mark the argument required or optional.
    pub fn required(self, required: bool) -> (b: ArgBuilder)
        ensures
            b == (ArgBuilder { required, ..self }),
    {
        ArgBuilder { required, ..self }
    }

    /// Set the declared default value.
    pub fn default_value(self, value: &str) -> (b: ArgBuilder)
        ensures
            b == (ArgBuilder { default_value: b.default_value, ..self }),
            b.default_value.deep_view() == Some(value@),
    {
        ArgBuilder { default_value: Some(value.to_owned()), ..self }
    }

    /// Set the value placeholder.
    pub fn value_name(self, value_name: &str) -> (b: ArgBuilder)
        ensures
            b == (ArgBuilder { value_name: b.value_name, ..self }),
            b.value_name.deep_view() == Some(value_name@),
    {
        ArgBuilder { value_name: Some(value_name.to_owned()), ..self }
    }

    /// Set the takes-value flag explicitly, overriding the inference.
    pub fn takes_value(self, takes_value: bool) -> (b: ArgBuilder)
        ensures
            b == (ArgBuilder { takes_value: Some(takes_value), ..self }),
    {
        ArgBuilder { takes_value: Some(takes_value), ..self }
    }

    /// Finish the definition: spellings are normalized, and an argument
    /// without an explicit takes-value flag takes a value when it is
    /// positional, value-named or defaulted.
    pub fn build(self) -> (a: ArgDef)
        ensures
            a.name == self.name,
            a.short.deep_view() == match self.short.deep_view() {
                Some(s) => Some(spec_built_spelling(s, "-"@)),
                None => None::<Seq<char>>,
            },
            a.long.deep_view() == match self.long.deep_view() {
                Some(l) => Some(spec_built_spelling(l, "--"@)),
                None => None::<Seq<char>>,
            },
            a.help == self.help,
            a.required == self.required,
            a.default_value == self.default_value,
            a.value_name == self.value_name,
            a.takes_value == match self.takes_value {
                Some(t) => t,
                None => {
                    if self.short is None && self.long is None {
                        true
                    } else {
                        self.value_name is Some || self.default_value is Some
                    }
                },
            },
    {
        let positional = self.short.is_none() && self.long.is_none();
        let short: Option<String> = match &self.short {
            Some(s) => {
                let t = trim(s.as_str());
                if t.unicode_len() > 0 && t.get_char(0) == '-' {
                    Some(t.to_owned())
                } else {
                    let mut d: String = "-".to_owned();
                    d.append(t);
                    Some(d)
                }
            },
            None => None,
        };
        let long: Option<String> = match &self.long {
            Some(l) => {
                let t = trim(l.as_str());
                if t.unicode_len() > 0 && t.get_char(0) == '-' {
                    Some(t.to_owned())
                } else {
                    let mut d: String = "--".to_owned();
                    d.append(t);
                    Some(d)
                }
            },
            None => None,
        };
        let inferred = if positional {
            true
        } else {
            self.value_name.is_some() || self.default_value.is_some()
        };
        let takes_value = match self.takes_value {
            Some(t) => t,
            None => inferred,
        };
        ArgDef {
            name: self.name,
            short,
            long,
            help: self.help,
            required: self.required,
            default_value: self.default_value,
            value_name: self.value_name,
            takes_value,
        }
    }
}

} // verus!
