//! What Cargo is asked to do with the generated package.
use vstd::prelude::*;

verus! {

/// Build and run, test, or benchmark.
#[derive(Copy, Clone, Debug, PartialEq, Eq, Structural)]
pub enum BuildKind {
    Normal,
    Test,
    Bench,
}

/// The Cargo subcommand for each kind of build.
pub open spec fn exec_command_spec(k: BuildKind) -> Seq<char> {
    match k {
        BuildKind::Normal => "build"@,
        BuildKind::Test => "test"@,
        BuildKind::Bench => "bench"@,
    }
}

impl BuildKind {
    /// The Cargo subcommand that performs this kind of build.
    pub fn exec_command(&self) -> (r: &'static str)
        ensures
            r@ == exec_command_spec(*self),
    {
        match *self {
            BuildKind::Normal => "build",
            BuildKind::Test => "test",
            BuildKind::Bench => "bench",
        }
    }

    /// The kind of build that the `--test` and `--bench` flags ask for; they
    /// cannot both be given.
    pub fn from_flags(test: bool, bench: bool) -> (r: BuildKind)
        requires
            !(test && bench),
        ensures
            r == (if test {
                BuildKind::Test
            } else if bench {
                BuildKind::Bench
            } else {
                BuildKind::Normal
            }),
    {
        match (test, bench) {
            (false, false) => BuildKind::Normal,
            (true, false) => BuildKind::Test,
            (false, true) => BuildKind::Bench,
            (true, true) => BuildKind::Normal,
        }
    }
}

} // verus!
