//! Shared metadata model for command components.
//!
//! These types mirror the records of the component type vocabulary: the
//! compact `CommandMeta`/`ArgDef` pair every command carries, and the richer
//! `CommandSchema`/`ArgSchema` pair used for host-side help, version and
//! validation without executing the plugin.

use vstd::prelude::*;

verus! {

/// Compact declarative description of one accepted argument.
#[derive(Debug, Clone)]
pub struct ArgDef {
    pub name: String,
    pub short: Option<String>,
    pub long: Option<String>,
    pub help: String,
    pub required: bool,
    pub default_value: Option<String>,
    pub value_name: Option<String>,
    pub takes_value: bool,
}

/// Compact description of one command.
#[derive(Debug, Clone)]
pub struct CommandMeta {
    pub name: String,
    pub summary: String,
    pub usage: String,
    pub aliases: Vec<String>,
    pub version: String,
    pub hidden: bool,
    pub description: String,
    pub examples: Vec<String>,
    pub args: Vec<ArgDef>,
}

/// Richer per-argument schema: adds env sourcing, value enumeration and
/// relation rules to `ArgDef`.
#[derive(Debug, Clone)]
pub struct ArgSchema {
    pub name: String,
    pub short: Option<String>,
    pub long: Option<String>,
    pub help: String,
    pub required: bool,
    pub default_value: Option<String>,
    pub env: Option<String>,
    pub value_name: Option<String>,
    pub takes_value: bool,
    pub multiple: bool,
    pub value_type: Option<String>,
    pub possible_values: Vec<String>,
    pub conflicts_with: Vec<String>,
    pub requires: Vec<String>,
    pub hidden: bool,
}

/// Richer description of one command; a superset of `CommandMeta`.
#[derive(Debug, Clone)]
pub struct CommandSchema {
    pub name: String,
    pub summary: String,
    pub usage: String,
    pub aliases: Vec<String>,
    pub version: String,
    pub hidden: bool,
    pub description: String,
    pub examples: Vec<String>,
    pub args: Vec<ArgSchema>,
}

impl Default for ArgDef {
    /// The all-empty argument definition.
    fn default() -> (d: ArgDef)
        ensures
            d.name@ == Seq::<char>::empty(),
            d.short is None,
            d.long is None,
            d.help@ == Seq::<char>::empty(),
            !d.required,
            d.default_value is None,
            d.value_name is None,
            !d.takes_value,
    {
        ArgDef {
            name: String::new(),
            short: None,
            long: None,
            help: String::new(),
            required: false,
            default_value: None,
            value_name: None,
            takes_value: false,
        }
    }
}

impl Default for CommandMeta {
    /// The all-empty command description.
    fn default() -> (d: CommandMeta)
        ensures
            d.name@ == Seq::<char>::empty(),
            d.summary@ == Seq::<char>::empty(),
            d.usage@ == Seq::<char>::empty(),
            d.aliases@ == Seq::<String>::empty(),
            d.version@ == Seq::<char>::empty(),
            !d.hidden,
            d.description@ == Seq::<char>::empty(),
            d.examples@ == Seq::<String>::empty(),
            d.args@ == Seq::<ArgDef>::empty(),
    {
        CommandMeta {
            name: String::new(),
            summary: String::new(),
            usage: String::new(),
            aliases: Vec::new(),
            version: String::new(),
            hidden: false,
            description: String::new(),
            examples: Vec::new(),
            args: Vec::new(),
        }
    }
}

impl Default for ArgSchema {
    /// The all-empty argument schema.
    fn default() -> (d: ArgSchema)
        ensures
            d.name@ == Seq::<char>::empty(),
            d.short is None,
            d.long is None,
            d.help@ == Seq::<char>::empty(),
            !d.required,
            d.default_value is None,
            d.env is None,
            d.value_name is None,
            !d.takes_value,
            !d.multiple,
            d.value_type is None,
            d.possible_values@ == Seq::<String>::empty(),
            d.conflicts_with@ == Seq::<String>::empty(),
            d.requires@ == Seq::<String>::empty(),
            !d.hidden,
    {
        ArgSchema {
            name: String::new(),
            short: None,
            long: None,
            help: String::new(),
            required: false,
            default_value: None,
            env: None,
            value_name: None,
            takes_value: false,
            multiple: false,
            value_type: None,
            possible_values: Vec::new(),
            conflicts_with: Vec::new(),
            requires: Vec::new(),
            hidden: false,
        }
    }
}

impl Default for CommandSchema {
    /// The all-empty command schema.
    fn default() -> (d: CommandSchema)
        ensures
            d.name@ == Seq::<char>::empty(),
            d.summary@ == Seq::<char>::empty(),
            d.usage@ == Seq::<char>::empty(),
            d.aliases@ == Seq::<String>::empty(),
            d.version@ == Seq::<char>::empty(),
            !d.hidden,
            d.description@ == Seq::<char>::empty(),
            d.examples@ == Seq::<String>::empty(),
            d.args@ == Seq::<ArgSchema>::empty(),
    {
        CommandSchema {
            name: String::new(),
            summary: String::new(),
            usage: String::new(),
            aliases: Vec::new(),
            version: String::new(),
            hidden: false,
            description: String::new(),
            examples: Vec::new(),
            args: Vec::new(),
        }
    }
}

/// The mathematical shape of one argument schema.
pub struct ArgView {
    pub name: Seq<char>,
    pub short: Option<Seq<char>>,
    pub long: Option<Seq<char>>,
    pub help: Seq<char>,
    pub required: bool,
    pub default_value: Option<Seq<char>>,
    pub env: Option<Seq<char>>,
    pub value_name: Option<Seq<char>>,
    pub takes_value: bool,
    pub multiple: bool,
    pub value_type: Option<Seq<char>>,
    pub possible_values: Seq<Seq<char>>,
    pub conflicts_with: Seq<Seq<char>>,
    pub requires: Seq<Seq<char>>,
    pub hidden: bool,
}

/// The mathematical shape of one command schema.
pub struct SchemaView {
    pub name: Seq<char>,
    pub summary: Seq<char>,
    pub usage: Seq<char>,
    pub aliases: Seq<Seq<char>>,
    pub version: Seq<char>,
    pub hidden: bool,
    pub description: Seq<char>,
    pub examples: Seq<Seq<char>>,
    pub args: Seq<ArgView>,
}

/// The shape of an `ArgSchema`.
pub open spec fn arg_schema_view(a: ArgSchema) -> ArgView {
    ArgView {
        name: a.name@,
        short: a.short.deep_view(),
        long: a.long.deep_view(),
        help: a.help@,
        required: a.required,
        default_value: a.default_value.deep_view(),
        env: a.env.deep_view(),
        value_name: a.value_name.deep_view(),
        takes_value: a.takes_value,
        multiple: a.multiple,
        value_type: a.value_type.deep_view(),
        possible_values: a.possible_values.deep_view(),
        conflicts_with: a.conflicts_with.deep_view(),
        requires: a.requires.deep_view(),
        hidden: a.hidden,
    }
}

/// The shape of an `ArgDef`, widened as `arg_schema_from_def` widens it.
pub open spec fn arg_def_view(a: ArgDef) -> ArgView {
    ArgView {
        name: a.name@,
        short: a.short.deep_view(),
        long: a.long.deep_view(),
        help: a.help@,
        required: a.required,
        default_value: a.default_value.deep_view(),
        env: None,
        value_name: a.value_name.deep_view(),
        takes_value: a.takes_value,
        multiple: true,
        value_type: None,
        possible_values: Seq::empty(),
        conflicts_with: Seq::empty(),
        requires: Seq::empty(),
        hidden: false,
    }
}

/// The shape of a `CommandSchema`.
pub open spec fn schema_view(s: CommandSchema) -> SchemaView {
    SchemaView {
        name: s.name@,
        summary: s.summary@,
        usage: s.usage@,
        aliases: s.aliases.deep_view(),
        version: s.version@,
        hidden: s.hidden,
        description: s.description@,
        examples: s.examples.deep_view(),
        args: s.args@.map_values(|a: ArgSchema| arg_schema_view(a)),
    }
}

/// The shape of a `CommandMeta`, widened field by field.
pub open spec fn meta_schema_view(m: CommandMeta) -> SchemaView {
    SchemaView {
        name: m.name@,
        summary: m.summary@,
        usage: m.usage@,
        aliases: m.aliases.deep_view(),
        version: m.version@,
        hidden: m.hidden,
        description: m.description@,
        examples: m.examples.deep_view(),
        args: m.args@.map_values(|a: ArgDef| arg_def_view(a)),
    }
}

/// The shared fields of a widened argument agree with the definition; the
/// schema-only fields stay at their defaults, and repeated occurrences stay
/// allowed.
pub open spec fn arg_widened(a: ArgDef, r: ArgSchema) -> bool {
    &&& r.name@ == a.name@
    &&& r.short.deep_view() == a.short.deep_view()
    &&& r.long.deep_view() == a.long.deep_view()
    &&& r.help@ == a.help@
    &&& r.required == a.required
    &&& r.default_value.deep_view() == a.default_value.deep_view()
    &&& r.env is None
    &&& r.value_name.deep_view() == a.value_name.deep_view()
    &&& r.takes_value == a.takes_value
    &&& r.multiple
    &&& r.value_type is None
    &&& r.possible_values.deep_view() == Seq::<Seq<char>>::empty()
    &&& r.conflicts_with.deep_view() == Seq::<Seq<char>>::empty()
    &&& r.requires.deep_view() == Seq::<Seq<char>>::empty()
    &&& !r.hidden
}

/// Widen one `ArgDef` into an `ArgSchema`.
pub fn arg_schema_from_def(a: &ArgDef) -> (r: ArgSchema)
    ensures
        arg_widened(*a, r),
{
    let r = ArgSchema {
        name: a.name.clone(),
        short: a.short.clone(),
        long: a.long.clone(),
        help: a.help.clone(),
        required: a.required,
        default_value: a.default_value.clone(),
        env: None,
        value_name: a.value_name.clone(),
        takes_value: a.takes_value,
        multiple: true,
        value_type: None,
        possible_values: Vec::new(),
        conflicts_with: Vec::new(),
        requires: Vec::new(),
        hidden: false,
    };
    proof {
        assert(r.possible_values.deep_view() =~= Seq::<Seq<char>>::empty());
        assert(r.conflicts_with.deep_view() =~= Seq::<Seq<char>>::empty());
        assert(r.requires.deep_view() =~= Seq::<Seq<char>>::empty());
    }
    r
}

impl CommandSchema {
    /// Synthesize the rich schema from the compact metadata: shared fields
    /// carry over; each argument keeps its declared fields, allows repeated
    /// occurrences, and leaves the schema-only fields empty.
    pub fn from_meta(meta: &CommandMeta) -> (r: CommandSchema)
        ensures
            schema_view(r) == meta_schema_view(*meta),
    {
        let mut args: Vec<ArgSchema> = Vec::new();
        let n = meta.args.len();
        let mut i: usize = 0;
        while i < n
            invariant
                n == meta.args@.len(),
                0 <= i <= n,
                args@.len() == i,
                forall|j: int|
                    0 <= j < i ==> arg_widened(meta.args@[j], #[trigger] args@[j]),
            decreases n - i,
        {
            let a = arg_schema_from_def(&meta.args[i]);
            args.push(a);
            i = i + 1;
        }
        let r = CommandSchema {
            name: meta.name.clone(),
            summary: meta.summary.clone(),
            usage: meta.usage.clone(),
            aliases: meta.aliases.clone(),
            version: meta.version.clone(),
            hidden: meta.hidden,
            description: meta.description.clone(),
            examples: meta.examples.clone(),
            args,
        };
        proof {
            let lhs = r.args@.map_values(|a: ArgSchema| arg_schema_view(a));
            let rhs = meta.args@.map_values(|a: ArgDef| arg_def_view(a));
            assert forall|i: int| 0 <= i < meta.args@.len() implies #[trigger] lhs[i] == rhs[
                i
            ] by {
                assert(arg_widened(meta.args@[i], r.args@[i]));
                assert(lhs[i] == arg_schema_view(r.args@[i]));
                assert(rhs[i] == arg_def_view(meta.args@[i]));
            }
            assert(lhs =~= rhs);
            assert(schema_view(r) == meta_schema_view(*meta));
        }
        r
    }
}

/// The metadata payload a command component embeds.
#[derive(Debug, Clone)]
pub struct CommandMetadataV1 {
    pub format_version: u32,
    pub command_meta: CommandMeta,
    pub command_schema: Option<CommandSchema>,
}

impl CommandMetadataV1 {
    /// Wrap metadata at the current format version.
    pub fn new(command_meta: CommandMeta, command_schema: Option<CommandSchema>) -> (r:
        CommandMetadataV1)
        ensures
            r.format_version == 1,
            r.command_meta == command_meta,
            r.command_schema == command_schema,
    {
        CommandMetadataV1 { format_version: 1, command_meta, command_schema }
    }
}

} // verus!
