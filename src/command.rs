//! Descriptions of the subcommands a front end can run.
use vstd::prelude::*;

verus! {

/// A subcommand: built into the front end, or an external program.
#[derive(Debug, PartialEq, Eq, PartialOrd, Ord)]
pub enum CommandInfo {
    BuiltIn { about: Option<String> },
    External { path: String },
}

} // verus!
