//! A verified registry compiler for component-based command-line tools.
//!
//! Given an ordered list of command descriptors and one application
//! descriptor, the library interns every referenced string into one byte
//! table, emits the stack-machine bodies that realize the canonical ABI
//! layout of the registry records, fills a fixed module template, and wraps
//! the parsed module as a linkable component carrying interface metadata.
//! Around that core it provides the shared argument-parsing engine, the
//! descriptor data model, and the composition helpers the build tool uses.

pub mod argparse;
pub mod bodies;
pub mod cdk;
pub mod compose;
pub mod dispatch;
pub mod emit;
pub mod gen;
pub mod lockdata;
pub mod manifest;
pub mod metadata;
pub mod regbin;
pub mod router;
pub mod scan;
pub mod strtab;
pub mod text;
pub mod wac;
pub mod wittext;
