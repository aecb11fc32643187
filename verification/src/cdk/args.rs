//! Argument helpers for plugin commands: the shared parsing engine applied
//! to the compact command metadata.
//!
//! A help or version request surfaces as an invalid-arguments failure
//! carrying the rendered message; the host decides how to print it.

use vstd::prelude::*;
use crate::cdk::CommandError;
use crate::metadata::{CommandMeta, CommandSchema};

verus! {

pub use crate::argparse::args::Matches;
pub use crate::argparse::args::Schema;

use crate::argparse::args::{spec_flag, spec_positionals, spec_value};
use crate::argparse::claplike;

/// Check if a flag such as `--help` exists, under any of the given
/// spellings; parsing stops at `--`.
pub fn flag(argv: &Vec<String>, names: &Vec<String>) -> (r: bool)
    ensures
        r == spec_flag(argv.deep_view(), names.deep_view()),
{
    crate::argparse::args::flag(argv, names)
}

/// Get a flag value such as `--name=value` or `--name value`; parsing stops
/// at `--`.
pub fn value(argv: &Vec<String>, name: &str) -> (r: Option<String>)
    ensures
        r.deep_view() == spec_value(argv.deep_view(), name@),
{
    crate::argparse::args::value(argv, name)
}

/// Get all positional arguments.
pub fn positional_args(argv: &Vec<String>) -> (r: Vec<String>)
    ensures
        r.deep_view() == spec_positionals(argv.deep_view(), Seq::empty(), false),
{
    crate::argparse::args::positional_args(argv)
}

/// Get all positional arguments using a schema to skip values of declared
/// flags.
pub fn positional_args_with_schema(argv: &Vec<String>, schema: &Schema) -> (r: Vec<String>)
    ensures
        r.deep_view() == spec_positionals(argv.deep_view(), schema.flags(), false),
{
    crate::argparse::args::positional_args_with_schema(argv, schema)
}

/// Get a positional argument by index.
pub fn positional(argv: &Vec<String>, index: usize) -> (r: Option<String>)
    ensures
        r.deep_view() == {
            let ps = spec_positionals(argv.deep_view(), Seq::empty(), false);
            if index < ps.len() {
                Some(ps[index as int])
            } else {
                None
            }
        },
{
    crate::argparse::args::positional(argv, index)
}

/// Get a positional argument by index using a schema.
pub fn positional_with_schema(argv: &Vec<String>, index: usize, schema: &Schema) -> (r: Option<
    String,
>)
    ensures
        r.deep_view() == {
            let ps = spec_positionals(argv.deep_view(), schema.flags(), false);
            if index < ps.len() {
                Some(ps[index as int])
            } else {
                None
            }
        },
{
    crate::argparse::args::positional_with_schema(argv, index, schema)
}

/// The remaining arguments from a start index.
pub fn rest(argv: &Vec<String>, start: usize) -> (r: Vec<String>)
    ensures
        r.deep_view() == if start <= argv.deep_view().len() {
            argv.deep_view().skip(start as int)
        } else {
            Seq::<Seq<char>>::empty()
        },
{
    crate::argparse::args::rest(argv, start)
}

/// Render the help message of a command.
pub fn help(meta: &CommandMeta) -> String {
    let schema = CommandSchema::from_meta(meta);
    claplike::help(&schema)
}

/// Render the version message of a command.
pub fn version(meta: &CommandMeta) -> (r: String)
    ensures
        r@ == claplike::spec_version(meta.name@, meta.version@),
{
    let schema = CommandSchema::from_meta(meta);
    claplike::version(&schema)
}

/// Parse `argv` against the compact metadata: repeated occurrences stay
/// allowed, and a help or version request is an invalid-arguments failure
/// carrying the rendered message.
pub fn parse(meta: &CommandMeta, argv: &Vec<String>) -> Result<Matches, CommandError> {
    let schema = CommandSchema::from_meta(meta);
    match claplike::parse(&schema, argv) {
        Ok(claplike::ParseOutcome::Matches(m)) => Ok(m),
        Ok(claplike::ParseOutcome::Help(msg)) => Err(CommandError::InvalidArgs(msg)),
        Ok(claplike::ParseOutcome::Version(msg)) => Err(CommandError::InvalidArgs(msg)),
        Err(claplike::ParseError::InvalidArgs(msg)) => Err(CommandError::InvalidArgs(msg)),
        Err(claplike::ParseError::Failed(msg)) => Err(CommandError::Failed(msg)),
    }
}

} // verus!
