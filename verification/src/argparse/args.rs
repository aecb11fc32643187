//! Positional and flag helpers over a plain argument vector.
//!
//! Parsing stops at the `--` separator; a schema of declared value-taking
//! flags lets the positional helpers skip flag values correctly.

use vstd::prelude::*;
use crate::text::{char_index, find_char, starts_with, str_eq};

verus! {

/// Parsed arguments and values.
#[derive(Debug)]
pub struct Matches {
    pub(crate) values: Vec<(String, Vec<String>)>,
    pub(crate) present: Vec<String>,
    pub(crate) explicit: Vec<String>,
    pub(crate) rest: Vec<String>,
}

/// The recorded values of a name: those of its first entry, if any.
pub open spec fn values_of(entries: Seq<(Seq<char>, Seq<Seq<char>>)>, name: Seq<char>) -> Option<
    Seq<Seq<char>>,
>
    decreases entries.len(),
{
    if entries.len() == 0 {
        None
    } else if entries[0].0 == name {
        Some(entries[0].1)
    } else {
        values_of(entries.drop_first(), name)
    }
}

impl Matches {
    /// The entry table: each argument name with its recorded values.
    pub closed spec fn entries(&self) -> Seq<(Seq<char>, Seq<Seq<char>>)> {
        Seq::new(
            self.values@.len(),
            |i: int| (self.values@[i].0@, self.values@[i].1.deep_view()),
        )
    }

    /// Names recorded as present boolean flags.
    pub closed spec fn present_set(&self) -> Seq<Seq<char>> {
        self.present.deep_view()
    }

    /// Names that were explicitly given on the command line.
    pub closed spec fn explicit_set(&self) -> Seq<Seq<char>> {
        self.explicit.deep_view()
    }

    /// The extra positionals, in order.
    pub closed spec fn rest_seq(&self) -> Seq<Seq<char>> {
        self.rest.deep_view()
    }

    pub(crate) fn new() -> (m: Matches)
        ensures
            m.entries() == Seq::<(Seq<char>, Seq<Seq<char>>)>::empty(),
            m.present_set() == Seq::<Seq<char>>::empty(),
            m.explicit_set() == Seq::<Seq<char>>::empty(),
            m.rest_seq() == Seq::<Seq<char>>::empty(),
    {
        let m = Matches {
            values: Vec::new(),
            present: Vec::new(),
            explicit: Vec::new(),
            rest: Vec::new(),
        };
        proof {
            assert(m.entries() =~= Seq::<(Seq<char>, Seq<Seq<char>>)>::empty());
            assert(m.present_set() =~= Seq::<Seq<char>>::empty());
            assert(m.explicit_set() =~= Seq::<Seq<char>>::empty());
            assert(m.rest_seq() =~= Seq::<Seq<char>>::empty());
        }
        m
    }

    /// Look up the recorded values of a name.
    #[verifier::loop_isolation(false)]
    fn lookup(&self, name: &str) -> (r: Option<&Vec<String>>)
        ensures
            match r {
                Some(v) => values_of(self.entries(), name@) == Some(v.deep_view()),
                None => values_of(self.entries(), name@) is None,
            },
    {
        let n = self.values.len();
        let mut i: usize = 0;
        proof {
            assert(self.entries().skip(0) =~= self.entries());
        }
        while i < n
            invariant
                0 <= i <= n,
                n == self.entries().len(),
                values_of(self.entries(), name@) == values_of(
                    self.entries().skip(i as int),
                    name@,
                ),
            decreases n - i,
        {
            proof {
                assert(self.entries().skip(i as int)[0] == self.entries()[i as int]);
                assert(self.entries().skip(i as int).drop_first() =~= self.entries().skip(i + 1));
            }
            if str_eq(self.values[i].0.as_str(), name) {
                return Some(&self.values[i].1);
            }
            i = i + 1;
        }
        proof {
            assert(self.entries().skip(n as int) =~= Seq::<(Seq<char>, Seq<Seq<char>>)>::empty());
        }
        None
    }

    /// The last value recorded for an argument, if any.
    pub fn get(&self, name: &str) -> (r: Option<String>)
        ensures
            match r {
                Some(v) => {
                    &&& values_of(self.entries(), name@) is Some
                    &&& values_of(self.entries(), name@)->Some_0.len() > 0
                    &&& v@ == values_of(self.entries(), name@)->Some_0.last()
                },
                None => values_of(self.entries(), name@) is None || values_of(
                    self.entries(),
                    name@,
                )->Some_0.len() == 0,
            },
    {
        match self.lookup(name) {
            Some(v) => {
                if v.len() == 0 {
                    None
                } else {
                    let r = v[v.len() - 1].clone();
                    proof {
                        assert(v.deep_view()[v@.len() - 1] == v.deep_view().last());
                    }
                    Some(r)
                }
            },
            None => None,
        }
    }

    /// All values recorded for an argument, if it was given at all.
    pub fn get_all(&self, name: &str) -> (r: Option<Vec<String>>)
        ensures
            match r {
                Some(v) => values_of(self.entries(), name@) == Some(v.deep_view()),
                None => values_of(self.entries(), name@) is None,
            },
    {
        match self.lookup(name) {
            Some(v) => Some(v.clone()),
            None => None,
        }
    }

    /// Whether an argument is present: as a boolean flag or with a value.
    pub fn is_present(&self, name: &str) -> (r: bool)
        ensures
            r == (self.present_set().contains(name@) || values_of(
                self.entries(),
                name@,
            ) is Some),
    {
        if contains_name(&self.present, name) {
            return true;
        }
        match self.lookup(name) {
            Some(_) => true,
            None => false,
        }
    }

    /// Whether an argument was given explicitly on the command line, rather
    /// than sourced from the environment or a declared default.
    pub fn is_explicit(&self, name: &str) -> (r: bool)
        ensures
            r == self.explicit_set().contains(name@),
    {
        contains_name(&self.explicit, name)
    }

    /// The extra positional arguments not covered by declared positionals.
    pub fn rest(&self) -> (r: &Vec<String>)
        ensures
            r.deep_view() == self.rest_seq(),
    {
        &self.rest
    }

    pub(crate) fn push_present(&mut self, name: &String)
        ensures
            final(self).present_set() == old(self).present_set().push(name@),
            final(self).entries() == old(self).entries(),
            final(self).explicit_set() == old(self).explicit_set(),
            final(self).rest_seq() == old(self).rest_seq(),
    {
        self.present.push(name.clone());
        proof {
            assert(self.present_set() =~= old(self).present_set().push(name@));
            assert(self.entries() =~= old(self).entries());
        }
    }

    pub(crate) fn push_explicit(&mut self, name: &String)
        ensures
            final(self).explicit_set() == old(self).explicit_set().push(name@),
            final(self).entries() == old(self).entries(),
            final(self).present_set() == old(self).present_set(),
            final(self).rest_seq() == old(self).rest_seq(),
    {
        self.explicit.push(name.clone());
        proof {
            assert(self.explicit_set() =~= old(self).explicit_set().push(name@));
            assert(self.entries() =~= old(self).entries());
        }
    }

    pub(crate) fn push_rest(&mut self, value: &String)
        ensures
            final(self).rest_seq() == old(self).rest_seq().push(value@),
            final(self).entries() == old(self).entries(),
            final(self).present_set() == old(self).present_set(),
            final(self).explicit_set() == old(self).explicit_set(),
    {
        self.rest.push(value.clone());
        proof {
            assert(self.rest_seq() =~= old(self).rest_seq().push(value@));
            assert(self.entries() =~= old(self).entries());
        }
    }

    /// Record one more value for a name: appended to its entry when one
    /// exists, in a fresh entry otherwise.
    #[verifier::loop_isolation(false)]
    pub(crate) fn push_value(&mut self, name: &String, value: String)
        ensures
            final(self).present_set() == old(self).present_set(),
            final(self).explicit_set() == old(self).explicit_set(),
            final(self).rest_seq() == old(self).rest_seq(),
            values_of(final(self).entries(), name@) is Some,
    {
        let n = self.values.len();
        let mut i: usize = 0;
        while i < n
            invariant
                0 <= i <= n,
                n == self.values@.len(),
                self == old(self),
            decreases n - i,
        {
            if str_eq(self.values[i].0.as_str(), name.as_str()) {
                let ghost pre = self.entries();
                self.values[i].1.push(value);
                proof {
                    assert(self.entries()[i as int].0 == name@);
                    lemma_values_of_present(self.entries(), name@, i as int);
                    assert(self.present_set() =~= old(self).present_set());
                    assert(self.explicit_set() =~= old(self).explicit_set());
                    assert(self.rest_seq() =~= old(self).rest_seq());
                }
                return ;
            }
            i = i + 1;
        }
        let mut fresh: Vec<String> = Vec::new();
        fresh.push(value);
        self.values.push((name.clone(), fresh));
        proof {
            assert(self.entries()[n as int].0 == name@);
            lemma_values_of_present(self.entries(), name@, n as int);
            assert(self.present_set() =~= old(self).present_set());
            assert(self.explicit_set() =~= old(self).explicit_set());
            assert(self.rest_seq() =~= old(self).rest_seq());
        }
    }

    /// Whether a name already has a value entry.
    pub(crate) fn has_value_key(&self, name: &str) -> (r: bool)
        ensures
            r == (values_of(self.entries(), name@) is Some),
    {
        match self.lookup(name) {
            Some(_) => true,
            None => false,
        }
    }
}

proof fn lemma_values_of_present(entries: Seq<(Seq<char>, Seq<Seq<char>>)>, name: Seq<char>, i: int)
    requires
        0 <= i < entries.len(),
        entries[i].0 == name,
    ensures
        values_of(entries, name) is Some,
    decreases i,
{
    if entries[0].0 != name {
        assert(entries.drop_first()[i - 1] == entries[i]);
        lemma_values_of_present(entries.drop_first(), name, i - 1);
    }
}

/// Whether a list contains a name.
#[verifier::loop_isolation(false)]
pub(crate) fn contains_name(names: &Vec<String>, s: &str) -> (r: bool)
    ensures
        r == names.deep_view().contains(s@),
{
    let n = names.len();
    let mut i: usize = 0;
    while i < n
        invariant
            0 <= i <= n,
            forall|j: int| 0 <= j < i ==> names.deep_view()[j] != s@,
        decreases n - i,
    {
        if str_eq(names[i].as_str(), s) {
            proof {
                assert(names.deep_view()[i as int] == s@);
            }
            return true;
        }
        i = i + 1;
    }
    proof {
        if names.deep_view().contains(s@) {
            let j = choose|j: int| 0 <= j < names.deep_view().len() && names.deep_view()[j] == s@;
            assert(names.deep_view()[j] != s@);
        }
    }
    false
}

/// Declared value-taking flags, so positional helpers can skip their
/// values.
pub struct Schema {
    pub(crate) value_flags: Vec<String>,
}

impl Schema {
    /// The declared value-taking flag spellings, in declaration order.
    pub closed spec fn flags(&self) -> Seq<Seq<char>> {
        self.value_flags.deep_view()
    }

    /// An empty schema.
    pub fn new() -> (s: Schema)
        ensures
            s.flags() == Seq::<Seq<char>>::empty(),
    {
        let s = Schema { value_flags: Vec::new() };
        proof {
            assert(s.flags() =~= Seq::<Seq<char>>::empty());
        }
        s
    }

    /// Declare a flag that takes a value; a repeated declaration changes
    /// nothing.
    pub fn value_flag(self, name: &str) -> (s: Schema)
        ensures
            s.flags() == if self.flags().contains(name@) {
                self.flags()
            } else {
                self.flags().push(name@)
            },
    {
        let mut s = self;
        if !contains_name(&s.value_flags, name) {
            let ghost pre = s.value_flags.deep_view();
            s.value_flags.push(name.to_owned());
            proof {
                assert(s.value_flags.deep_view() =~= pre.push(name@));
            }
        }
        s
    }

    pub(crate) fn takes_value(&self, flag: &str) -> (r: bool)
        ensures
            r == self.flags().contains(flag@),
    {
        contains_name(&self.value_flags, flag)
    }
}

/// Whether any of the given flag spellings occurs before the `--`
/// separator.
pub open spec fn spec_flag(argv: Seq<Seq<char>>, names: Seq<Seq<char>>) -> bool
    decreases argv.len(),
{
    if argv.len() == 0 {
        false
    } else if argv[0] == "--"@ {
        false
    } else if names.contains(argv[0]) {
        true
    } else {
        spec_flag(argv.drop_first(), names)
    }
}

/// Check if a flag such as `--help` exists, under any of the given
/// spellings; parsing stops at `--`.
#[verifier::loop_isolation(false)]
pub fn flag(argv: &Vec<String>, names: &Vec<String>) -> (r: bool)
    ensures
        r == spec_flag(argv.deep_view(), names.deep_view()),
{
    let ghost av = argv.deep_view();
    let n = argv.len();
    let mut i: usize = 0;
    proof {
        assert(av.skip(0) =~= av);
    }
    while i < n
        invariant
            0 <= i <= n,
            n == av.len(),
            spec_flag(av, names.deep_view()) == spec_flag(av.skip(i as int), names.deep_view()),
        decreases n - i,
    {
        proof {
            assert(av.skip(i as int)[0] == av[i as int]);
            assert(av.skip(i as int).drop_first() =~= av.skip(i + 1));
        }
        if str_eq(argv[i].as_str(), "--") {
            return false;
        }
        if contains_name(names, argv[i].as_str()) {
            return true;
        }
        i = i + 1;
    }
    proof {
        assert(av.skip(n as int) =~= Seq::<Seq<char>>::empty());
    }
    false
}

/// What scanning for `--name=value` or `--name value` yields: the attached
/// or following value of the first occurrence before `--`, and nothing once
/// the name occurs last or the separator is reached.
pub open spec fn spec_value(argv: Seq<Seq<char>>, name: Seq<char>) -> Option<Seq<char>>
    decreases argv.len(),
{
    if argv.len() == 0 {
        None
    } else if argv[0] == "--"@ {
        None
    } else if (name + "="@).is_prefix_of(argv[0]) {
        Some(argv[0].skip(name.len() as int + 1))
    } else if argv[0] == name {
        if argv.len() >= 2 {
            Some(argv[1])
        } else {
            None
        }
    } else {
        spec_value(argv.drop_first(), name)
    }
}

/// Get a flag value such as `--name=value` or `--name value`; parsing stops
/// at `--`.
#[verifier::loop_isolation(false)]
pub fn value(argv: &Vec<String>, name: &str) -> (r: Option<String>)
    ensures
        r.deep_view() == spec_value(argv.deep_view(), name@),
{
    let ghost av = argv.deep_view();
    let mut needle: String = name.to_owned();
    needle.append("=");
    let n = argv.len();
    let mut i: usize = 0;
    proof {
        assert(av.skip(0) =~= av);
    }
    while i < n
        invariant
            0 <= i <= n,
            n == av.len(),
            needle@ == name@ + "="@,
            spec_value(av, name@) == spec_value(av.skip(i as int), name@),
        decreases n - i,
    {
        let arg = &argv[i];
        proof {
            assert(av.skip(i as int)[0] == av[i as int]);
            assert(av.skip(i as int).drop_first() =~= av.skip(i + 1));
        }
        if str_eq(arg.as_str(), "--") {
            return None;
        }
        if starts_with(arg.as_str(), needle.as_str()) {
            let alen = arg.as_str().unicode_len();
            let nlen = needle.as_str().unicode_len();
            let rest = arg.as_str().substring_char(nlen, alen);
            proof {
                reveal_strlit("=");
                assert(needle@.len() == name@.len() + 1);
                assert(rest@ =~= av[i as int].skip(name@.len() as int + 1));
            }
            return Some(rest.to_owned());
        }
        if str_eq(arg.as_str(), name) {
            if i + 1 < n {
                return Some(argv[i + 1].clone());
            }
            return None;
        }
        i = i + 1;
    }
    proof {
        assert(av.skip(n as int) =~= Seq::<Seq<char>>::empty());
    }
    None
}

/// Whether a token is a flag token: it starts with a dash and is neither
/// the bare dash nor the separator.
pub open spec fn is_flag_token(arg: Seq<char>) -> bool {
    arg.len() > 0 && arg[0] == '-' && arg != "-"@
}

/// The positional arguments: flag tokens are skipped, `--key=value` is one
/// flag token, a declared value-taking flag also skips its following value
/// unless it is the separator, and everything after `--` is positional.
pub open spec fn spec_positionals(
    argv: Seq<Seq<char>>,
    schema: Seq<Seq<char>>,
    after_sep: bool,
) -> Seq<Seq<char>>
    decreases argv.len(),
{
    if argv.len() == 0 {
        Seq::empty()
    } else if !after_sep && argv[0] == "--"@ {
        spec_positionals(argv.drop_first(), schema, true)
    } else if !after_sep && is_flag_token(argv[0]) {
        if char_index(argv[0], '=') is Some {
            spec_positionals(argv.drop_first(), schema, false)
        } else if schema.contains(argv[0]) {
            if argv.len() >= 2 && argv[1] != "--"@ {
                spec_positionals(argv.drop_first().drop_first(), schema, false)
            } else {
                spec_positionals(argv.drop_first(), schema, false)
            }
        } else {
            spec_positionals(argv.drop_first(), schema, false)
        }
    } else {
        seq![argv[0]] + spec_positionals(argv.drop_first(), schema, after_sep)
    }
}

/// Get all positional arguments using a schema to skip values of declared
/// flags.
#[verifier::loop_isolation(false)]
pub fn positional_args_with_schema(argv: &Vec<String>, schema: &Schema) -> (r: Vec<String>)
    ensures
        r.deep_view() == spec_positionals(argv.deep_view(), schema.flags(), false),
{
    let ghost av = argv.deep_view();
    let ghost sv = schema.value_flags.deep_view();
    let mut out: Vec<String> = Vec::new();
    let n = argv.len();
    let mut i: usize = 0;
    let mut after_separator: bool = false;
    proof {
        assert(av.skip(0) =~= av);
        assert(out.deep_view() =~= Seq::<Seq<char>>::empty());
    }
    while i < n
        invariant
            0 <= i <= n,
            n == av.len(),
            spec_positionals(av, sv, false) == out.deep_view() + spec_positionals(
                av.skip(i as int),
                sv,
                after_separator,
            ),
        decreases n - i,
    {
        let arg = &argv[i];
        proof {
            assert(av.skip(i as int)[0] == av[i as int]);
            assert(av.skip(i as int).drop_first() =~= av.skip(i + 1));
        }
        if !after_separator {
            if str_eq(arg.as_str(), "--") {
                after_separator = true;
                i = i + 1;
                continue ;
            }
            let alen = arg.as_str().unicode_len();
            let is_flag = alen > 0 && arg.as_str().get_char(0) == '-' && !str_eq(
                arg.as_str(),
                "-",
            );
            proof {
                reveal_strlit("-");
                assert(is_flag == is_flag_token(av[i as int]));
            }
            if is_flag {
                if find_char(arg.as_str(), '=').is_some() {
                    i = i + 1;
                    continue ;
                }
                if schema.takes_value(arg.as_str()) {
                    if i + 1 < n && !str_eq(argv[i + 1].as_str(), "--") {
                        proof {
                            assert(av.skip(i as int)[1] == av[i + 1]);
                            assert(av.skip(i as int).drop_first().drop_first() =~= av.skip(
                                i + 2,
                            ));
                        }
                        i = i + 2;
                    } else {
                        proof {
                            if i + 1 < n {
                                assert(av.skip(i as int)[1] == av[i + 1]);
                            }
                        }
                        i = i + 1;
                    }
                    continue ;
                }
                i = i + 1;
                continue ;
            }
        }
        let ghost pre = out.deep_view();
        out.push(arg.clone());
        proof {
            assert(out.deep_view() =~= pre.push(av[i as int]));
            assert(out.deep_view() + spec_positionals(av.skip(i + 1), sv, after_separator)
                =~= pre + (seq![av[i as int]] + spec_positionals(
                av.skip(i + 1),
                sv,
                after_separator,
            )));
        }
        i = i + 1;
    }
    proof {
        assert(av.skip(n as int) =~= Seq::<Seq<char>>::empty());
        assert(out.deep_view() + spec_positionals(av.skip(n as int), sv, after_separator)
            =~= out.deep_view());
    }
    out
}

/// Get all positional arguments with no schema.
pub fn positional_args(argv: &Vec<String>) -> (r: Vec<String>)
    ensures
        r.deep_view() == spec_positionals(argv.deep_view(), Seq::empty(), false),
{
    let schema = Schema::new();
    positional_args_with_schema(argv, &schema)
}

/// Get a positional argument by index.
pub fn positional(argv: &Vec<String>, index: usize) -> (r: Option<String>)
    ensures
        r.deep_view() == if index < spec_positionals(argv.deep_view(), Seq::empty(), false).len() {
            Some(spec_positionals(argv.deep_view(), Seq::empty(), false)[index as int])
        } else {
            None
        },
{
    let all = positional_args(argv);
    if index < all.len() {
        Some(all[index].clone())
    } else {
        None
    }
}

/// Get a positional argument by index using a schema.
pub fn positional_with_schema(argv: &Vec<String>, index: usize, schema: &Schema) -> (r: Option<
    String,
>)
    ensures
        r.deep_view() == {
            let ps = spec_positionals(argv.deep_view(), schema.flags(), false);
            if index < ps.len() {
                Some(ps[index as int])
            } else {
                None
            }
        },
{
    let all = positional_args_with_schema(argv, schema);
    if index < all.len() {
        Some(all[index].clone())
    } else {
        None
    }
}

/// The remaining arguments from a start index; an index past the end yields
/// nothing.
#[verifier::loop_isolation(false)]
pub fn rest(argv: &Vec<String>, start: usize) -> (r: Vec<String>)
    ensures
        r.deep_view() == if start <= argv.deep_view().len() {
            argv.deep_view().skip(start as int)
        } else {
            Seq::<Seq<char>>::empty()
        },
{
    let mut out: Vec<String> = Vec::new();
    let n = argv.len();
    if start >= n {
        proof {
            if start <= argv.deep_view().len() {
                assert(argv.deep_view().skip(start as int) =~= Seq::<Seq<char>>::empty());
            }
            assert(out.deep_view() =~= Seq::<Seq<char>>::empty());
        }
        return out;
    }
    let mut i: usize = start;
    proof {
        assert(out.deep_view() =~= argv.deep_view().subrange(start as int, start as int));
    }
    while i < n
        invariant
            start <= i <= n,
            n == argv.deep_view().len(),
            out.deep_view() == argv.deep_view().subrange(start as int, i as int),
        decreases n - i,
    {
        let ghost pre = out.deep_view();
        out.push(argv[i].clone());
        proof {
            assert(out.deep_view() =~= argv.deep_view().subrange(start as int, i + 1));
        }
        i = i + 1;
    }
    proof {
        assert(argv.deep_view().subrange(start as int, n as int) =~= argv.deep_view().skip(
            start as int,
        ));
    }
    out
}

} // verus!
