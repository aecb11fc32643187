//! Minimal argument parsing and help rendering, shared by the host-side
//! router and the plugin development kit.

pub mod args;
pub mod claplike;
