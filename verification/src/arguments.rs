//! The command-line arguments of the program, as plain values.
use vstd::prelude::*;
use crate::build_kind::BuildKind;

verus! {

/// What the user asked for on the command line.
#[derive(Debug)]
pub struct Args {
    pub script: Option<String>,
    pub script_args: Vec<String>,
    pub expr: bool,
    pub loop_: bool,
    pub count: bool,
    pub pkg_path: Option<String>,
    pub gen_pkg_only: bool,
    pub cargo_output: bool,
    pub clear_cache: bool,
    pub debug: bool,
    pub dep: Vec<String>,
    pub extern_: Vec<String>,
    pub force: bool,
    pub unstable_features: Vec<String>,
    pub build_kind: BuildKind,
    pub toolchain_version: Option<String>,
    /// A command to run the built binary under (such as a debugger or a
    /// profiler), its words split as a shell would.
    pub wrapper: Option<String>,
}

} // verus!
