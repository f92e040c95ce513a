//! Your favorite rust -> wasm workflow tool: the logic of its command line,
//! of locating the crate and its package directory, and of the plan of steps
//! that a build runs.
use vstd::prelude::*;

pub mod command;
pub mod error;
pub mod path;
pub mod verbatim;

use crate::command::wasm_build::BuildOptions;

verus! {

/// The subcommands of the tool.
#[derive(Debug)]
pub enum Command {
    /// Build a wasm package from a Rust crate.
    Build(BuildOptions),
}

/// Pack and publish your wasm!
#[derive(Debug)]
pub struct Cli {
    /// The subcommand to run.
    pub cmd: Command,
    /// Log verbosity is based off the number of v used
    pub verbosity: u8,
}

} // verus!
