//! The commands at the end of a run: reusing a binary that is still current,
//! building the package with Cargo, and running what was built.
use vstd::prelude::*;
use crate::action::{opt_view, InputAction};
use crate::build_kind::{exec_command_spec, BuildKind};
use crate::error::MainError;
use crate::paths::{join, join_path};
use crate::text::{push_str, string_of};

verus! {

/// A program to start: the program, the name it is told it was started
/// as, its arguments and the directory it starts in.
#[derive(Debug)]
pub struct ProgramCall {
    pub program: String,
    pub arg0: Option<String>,
    pub args: Vec<String>,
    pub current_dir: Option<String>,
}

/// What the caller has found out since the last step.
pub enum CommandEvent {
    /// Nothing has been looked at yet.
    Start,
    /// No binary has been built before.
    NoBinary,
    /// When the built binary, the script and the manifest were last
    /// written, in one unit of time.
    Times { binary: u128, script: u128, manifest: u128 },
    /// Cargo finished with this exit code; `None` when a signal stopped it.
    CargoExited(Option<i32>),
}

/// What the caller is to do next.
#[derive(Debug)]
pub enum CommandStep {
    /// Find out when these files were last written; report `NoBinary` if
    /// the binary is not there.
    CheckBinary { binary: String, script: String, manifest: String },
    /// Run this and report how it exits.
    Build(ProgramCall),
    /// This is the command to execute in place of this program.
    Execute(ProgramCall),
    /// Stop with this error.
    Fail(MainError),
}

pub open spec fn strings_view(v: Seq<String>) -> Seq<Seq<char>> {
    v.map_values(|s: String| s@)
}

/// Release builds: everything but debug builds and benchmarks.
pub open spec fn release_mode_spec(a: InputAction) -> bool {
    !a.debug && a.build_kind != BuildKind::Bench
}

pub open spec fn manifest_path_spec(a: InputAction) -> Seq<char> {
    join_path(a.pkg_path@, "Cargo.toml"@)
}

/// Where Cargo puts the binary, under the binary cache `cache`.
pub open spec fn built_binary_spec(a: InputAction, cache: Seq<char>) -> Seq<char> {
    join_path(
        join_path(cache, if release_mode_spec(a) { "release"@ } else { "debug"@ }),
        a.bin_name@,
    )
}

/// The arguments of `cargo`: the toolchain, the subcommand, quiet for
/// plain builds unless Cargo's output is asked for, colour where it is
/// forced, the binary cache as target directory, and release mode.
pub open spec fn cargo_args_spec(a: InputAction, force_color: bool, cache: Seq<char>) -> Seq<Seq<char>> {
    (match a.toolchain_version {
        Some(t) => seq!["+"@ + t@],
        None => Seq::empty(),
    }) + seq![exec_command_spec(a.build_kind)] + (if a.build_kind == BuildKind::Normal
        && !a.cargo_output {
        seq!["-q"@]
    } else {
        Seq::empty()
    }) + (if force_color {
        seq!["--color"@, "always"@]
    } else {
        Seq::empty()
    }) + seq!["--target-dir"@, cache] + (if release_mode_spec(a) {
        seq!["--release"@]
    } else {
        Seq::empty()
    })
}

/// `c` runs the built binary under the name the script was called by.
pub open spec fn is_binary_call(
    c: ProgramCall,
    a: InputAction,
    cache: Seq<char>,
    script_args: Seq<Seq<char>>,
) -> bool {
    &&& c.program@ == built_binary_spec(a, cache)
    &&& opt_view(c.arg0) == opt_view(a.original_script_path)
    &&& strings_view(c.args@) == script_args
    &&& c.current_dir is None
}

/// The words `shell_words::split` makes of a command line, quotes and
/// escapes taken out; `None` when a quote is not closed.
pub uninterp spec fn shell_split(s: Seq<char>) -> Option<Seq<Seq<char>>>;

/// `shell_words::split`: the words of a command line, or `None` where the
/// crate fails (a quote is left open). Its result is a function of the text
/// alone; what the words are is not spelled out.
#[verifier::external_body]
fn shell_words_split(s: &str) -> (r: Option<Vec<String>>)
    ensures
        match shell_split(s@) {
            Some(ws) => r matches Some(v) && strings_view(v@) == ws,
            None => r is None,
        },
{
    shell_words::split(s).ok()
}

/// Does the step after `event` run the built binary (as opposed to
/// looking at files, building, or running Cargo)?
pub open spec fn runs_binary(a: InputAction, event: CommandEvent) -> bool {
    match event {
        CommandEvent::Times { binary, script, manifest } => binary >= script && binary >= manifest,
        CommandEvent::CargoExited(code) => code == Some(0i32),
        _ => false,
    }
}

/// Can the wrapper, if there is one, be split into words?
pub open spec fn wrapper_splits(wrapper: Option<String>) -> bool {
    wrapper matches Some(w) ==> shell_split(w@) is Some
}

/// The step that runs the built binary: directly under the name the
/// script was called by, or, with a wrapper command, the wrapper's first
/// word with its other words, the binary and the script's arguments after
/// it; a wrapper without words is an error.
pub open spec fn is_run_step(
    s: CommandStep,
    a: InputAction,
    cache: Seq<char>,
    script_args: Seq<Seq<char>>,
    wrapper: Option<String>,
) -> bool {
    match wrapper {
        None => s matches CommandStep::Execute(c) && is_binary_call(c, a, cache, script_args),
        Some(w) => match shell_split(w@) {
            Some(ws) => if ws.len() == 0 {
                s == CommandStep::Fail(MainError::OtherBorrowed("The wrapper cannot be empty"))
            } else {
                s matches CommandStep::Execute(c) && c.program@ == ws[0] && c.arg0 is None
                    && strings_view(c.args@) == ws.drop_first() + seq![built_binary_spec(a, cache)]
                    + script_args && c.current_dir is None
            },
            None => false,
        },
    }
}

/// `c` runs Cargo in the package directory, with `extra` after its own
/// arguments.
pub open spec fn is_cargo_call(
    c: ProgramCall,
    a: InputAction,
    force_color: bool,
    cache: Seq<char>,
    extra: Seq<Seq<char>>,
) -> bool {
    &&& c.program@ == "cargo"@
    &&& c.arg0 is None
    &&& strings_view(c.args@) == cargo_args_spec(a, force_color, cache) + extra
    &&& opt_view(c.current_dir) == Some(a.pkg_path@)
}

/// The step once the binary has to be built: a plain build is run and
/// waited for; for tests and benchmarks Cargo itself is what is executed,
/// with the script's arguments.
pub open spec fn is_build_step(
    s: CommandStep,
    a: InputAction,
    force_color: bool,
    cache: Seq<char>,
    script_args: Seq<Seq<char>>,
) -> bool {
    if a.build_kind == BuildKind::Normal {
        s matches CommandStep::Build(c) && is_cargo_call(c, a, force_color, cache, Seq::empty())
    } else {
        s matches CommandStep::Execute(c) && is_cargo_call(c, a, force_color, cache, script_args)
    }
}

/// The step that follows `event`.
pub open spec fn is_next_step(
    s: CommandStep,
    a: InputAction,
    event: CommandEvent,
    force_color: bool,
    cache: Seq<char>,
    script_args: Seq<Seq<char>>,
    wrapper: Option<String>,
) -> bool {
    match event {
        CommandEvent::Start => if a.build_kind == BuildKind::Normal && !a.force_compile {
            s matches CommandStep::CheckBinary { binary, script, manifest }
                && binary@ == built_binary_spec(a, cache) && script@ == a.script_path@
                && manifest@ == manifest_path_spec(a)
        } else {
            is_build_step(s, a, force_color, cache, script_args)
        },
        CommandEvent::NoBinary => is_build_step(s, a, force_color, cache, script_args),
        CommandEvent::Times { binary, script, manifest } => if binary >= script && binary
            >= manifest {
            is_run_step(s, a, cache, script_args, wrapper)
        } else {
            is_build_step(s, a, force_color, cache, script_args)
        },
        CommandEvent::CargoExited(code) => if code == Some(0i32) {
            is_run_step(s, a, cache, script_args, wrapper)
        } else {
            s matches CommandStep::Fail(e) && e matches MainError::OtherOwned(m) && m@
                == "Could not execute cargo"@
        },
    }
}

/// A plain build that is not up to date is built again: where the binary
/// built before is older than the script or than the manifest, the step
/// after learning the times runs Cargo in the package directory and waits
/// for it, whatever the other time is.
pub proof fn law_stale_binary_is_rebuilt(
    s: CommandStep,
    a: InputAction,
    binary: u128,
    script: u128,
    manifest: u128,
    force_color: bool,
    cache: Seq<char>,
    script_args: Seq<Seq<char>>,
    wrapper: Option<String>,
)
    requires
        a.build_kind == BuildKind::Normal,
        binary < script || binary < manifest,
        is_next_step(
            s,
            a,
            CommandEvent::Times { binary, script, manifest },
            force_color,
            cache,
            script_args,
            wrapper,
        ),
    ensures
        s matches CommandStep::Build(c) && c.program@ == "cargo"@ && opt_view(c.current_dir) == Some(
            a.pkg_path@,
        ),
{
}

/// A binary at least as new as both the script and the manifest is run as
/// it is, without a build: with no wrapper, the step after learning the
/// times executes the built binary with the script's arguments.
pub proof fn law_current_binary_is_reused(
    s: CommandStep,
    a: InputAction,
    binary: u128,
    script: u128,
    manifest: u128,
    force_color: bool,
    cache: Seq<char>,
    script_args: Seq<Seq<char>>,
)
    requires
        script <= binary,
        manifest <= binary,
        is_next_step(
            s,
            a,
            CommandEvent::Times { binary, script, manifest },
            force_color,
            cache,
            script_args,
            None,
        ),
    ensures
        s matches CommandStep::Execute(c) && c.program@ == built_binary_spec(a, cache)
            && strings_view(c.args@) == script_args,
{
}

/// A build that Cargo did not finish with success stops there: the step
/// after it is the error `Could not execute cargo`, never a run.
pub proof fn law_failed_build_stops(
    s: CommandStep,
    a: InputAction,
    code: Option<i32>,
    force_color: bool,
    cache: Seq<char>,
    script_args: Seq<Seq<char>>,
    wrapper: Option<String>,
)
    requires
        code != Some(0i32),
        is_next_step(s, a, CommandEvent::CargoExited(code), force_color, cache, script_args, wrapper),
    ensures
        s matches CommandStep::Fail(e) && e matches MainError::OtherOwned(m) && m@
            == "Could not execute cargo"@,
{
}

/// A forced plain build builds at once, without looking at the binary
/// built before.
pub proof fn law_forced_build_builds(
    s: CommandStep,
    a: InputAction,
    force_color: bool,
    cache: Seq<char>,
    script_args: Seq<Seq<char>>,
    wrapper: Option<String>,
)
    requires
        a.build_kind == BuildKind::Normal,
        a.force_compile,
        is_next_step(s, a, CommandEvent::Start, force_color, cache, script_args, wrapper),
    ensures
        s matches CommandStep::Build(c) && c.program@ == "cargo"@ && opt_view(c.current_dir) == Some(
            a.pkg_path@,
        ),
{
}

fn clone_strings(v: &Vec<String>) -> (r: Vec<String>)
    ensures
        strings_view(r@) == strings_view(v@),
{
    let mut r: Vec<String> = Vec::new();
    let mut i: usize = 0;
    while i < v.len()
        invariant
            i <= v@.len(),
            strings_view(r@) == strings_view(v@).take(i as int),
        decreases v@.len() - i,
    {
        let c = v[i].clone();
        let ghost r0 = r@;
        r.push(c);
        assert(r@ == r0.push(c));
        assert(c@ == v@[i as int]@);
        assert(strings_view(r@) =~= strings_view(r0).push(c@));
        assert(strings_view(v@).take(i + 1) =~= strings_view(v@).take(i as int).push(c@));
        i = i + 1;
        assert(strings_view(r@) =~= strings_view(v@).take(i as int));
    }
    assert(strings_view(v@).take(i as int) =~= strings_view(v@));
    r
}

impl InputAction {
    /// The path of the package manifest.
    pub fn manifest_path(&self) -> (r: String)
        ensures
            r@ == manifest_path_spec(*self),
    {
        join(self.pkg_path.as_str(), "Cargo.toml")
    }

    /// Is the script built in release mode?
    pub fn release_mode(&self) -> (r: bool)
        ensures
            r == release_mode_spec(*self),
    {
        !self.debug && self.build_kind != BuildKind::Bench
    }

    /// Where the built binary is found under the binary cache `cache`.
    pub fn built_binary_path(&self, cache: &str) -> (r: String)
        ensures
            r@ == built_binary_spec(*self, cache@),
    {
        let dir = if self.release_mode() {
            join(cache, "release")
        } else {
            join(cache, "debug")
        };
        join(dir.as_str(), self.bin_name.as_str())
    }

    fn binary_call(&self, cache: &str, script_args: &Vec<String>) -> (r: ProgramCall)
        ensures
            is_binary_call(r, *self, cache@, strings_view(script_args@)),
    {
        let arg0 = match &self.original_script_path {
            Some(p) => Some(p.clone()),
            None => None,
        };
        ProgramCall {
            program: self.built_binary_path(cache),
            arg0,
            args: clone_strings(script_args),
            current_dir: None,
        }
    }

    fn run_step(&self, cache: &str, script_args: &Vec<String>, wrapper: &Option<String>) -> (r:
        CommandStep)
        requires
            wrapper_splits(*wrapper),
        ensures
            is_run_step(r, *self, cache@, strings_view(script_args@), *wrapper),
    {
        match wrapper {
            None => CommandStep::Execute(self.binary_call(cache, script_args)),
            Some(w) => {
                let words = match shell_words_split(w.as_str()) {
                    Some(v) => v,
                    None => {
                        proof {
                            assert(false);
                        }
                        return CommandStep::Fail(
                            MainError::OtherBorrowed("The wrapper cannot be empty"),
                        );
                    },
                };
                if words.len() == 0 {
                    return CommandStep::Fail(MainError::OtherBorrowed("The wrapper cannot be empty"));
                }
                let ghost wv = strings_view(words@);
                let mut args: Vec<String> = Vec::new();
                let mut i: usize = 1;
                assert(wv.drop_first().take(0) =~= Seq::<Seq<char>>::empty());
                while i < words.len()
                    invariant
                        1 <= i <= words@.len(),
                        wv == strings_view(words@),
                        strings_view(args@) == wv.drop_first().take(i - 1),
                    decreases words@.len() - i,
                {
                    let c = words[i].clone();
                    let ghost a0 = args@;
                    args.push(c);
                    assert(strings_view(args@) =~= strings_view(a0).push(c@));
                    assert(wv.drop_first().take(i as int) =~= wv.drop_first().take(i - 1).push(
                        c@,
                    ));
                    i = i + 1;
                }
                assert(wv.drop_first().take(i - 1) =~= wv.drop_first());
                let b = self.built_binary_path(cache);
                let ghost bv = b@;
                let ghost a1 = args@;
                args.push(b);
                assert(strings_view(args@) =~= strings_view(a1).push(bv));
                let ghost before = strings_view(args@);
                let mut k: usize = 0;
                while k < script_args.len()
                    invariant
                        k <= script_args@.len(),
                        strings_view(args@) == before + strings_view(script_args@).take(k as int),
                    decreases script_args@.len() - k,
                {
                    let c = script_args[k].clone();
                    let ghost a0 = args@;
                    args.push(c);
                    assert(strings_view(args@) =~= strings_view(a0).push(c@));
                    assert(strings_view(script_args@).take(k + 1) =~= strings_view(
                        script_args@,
                    ).take(k as int).push(c@));
                    k = k + 1;
                }
                assert(strings_view(script_args@).take(k as int) =~= strings_view(script_args@));
                assert(strings_view(args@) =~= wv.drop_first() + seq![bv] + strings_view(
                    script_args@,
                ));
                let program = words[0].clone();
                CommandStep::Execute(ProgramCall { program, arg0: None, args, current_dir: None })
            },
        }
    }

    fn cargo_call(&self, force_color: bool, cache: &str, extra: &Vec<String>) -> (r: ProgramCall)
        ensures
            is_cargo_call(r, *self, force_color, cache@, strings_view(extra@)),
    {
        let mut args: Vec<String> = Vec::new();
        let ghost mut want: Seq<Seq<char>> = Seq::empty();
        match &self.toolchain_version {
            Some(t) => {
                let mut v: Vec<char> = Vec::new();
                push_str(&mut v, "+");
                push_str(&mut v, t.as_str());
                args.push(string_of(v.as_slice()));
                proof {
                    want = seq!["+"@ + t@];
                }
            },
            None => {},
        }
        assert(strings_view(args@) =~= want);
        args.push(self.build_kind.exec_command().to_owned());
        proof {
            want = want + seq![exec_command_spec(self.build_kind)];
        }
        assert(strings_view(args@) =~= want);
        if self.build_kind == BuildKind::Normal && !self.cargo_output {
            args.push("-q".to_owned());
            proof {
                want = want + seq!["-q"@];
            }
        } else {
            proof {
                want = want + Seq::<Seq<char>>::empty();
            }
        }
        assert(strings_view(args@) =~= want);
        if force_color {
            args.push("--color".to_owned());
            args.push("always".to_owned());
            proof {
                want = want + seq!["--color"@, "always"@];
            }
        } else {
            proof {
                want = want + Seq::<Seq<char>>::empty();
            }
        }
        assert(strings_view(args@) =~= want);
        args.push("--target-dir".to_owned());
        args.push(cache.to_owned());
        proof {
            want = want + seq!["--target-dir"@, cache@];
        }
        assert(strings_view(args@) =~= want);
        if self.release_mode() {
            args.push("--release".to_owned());
            proof {
                want = want + seq!["--release"@];
            }
        } else {
            proof {
                want = want + Seq::<Seq<char>>::empty();
            }
        }
        assert(strings_view(args@) =~= want);
        assert(want =~= cargo_args_spec(*self, force_color, cache@));
        let ghost before = strings_view(args@);
        let mut i: usize = 0;
        while i < extra.len()
            invariant
                i <= extra@.len(),
                strings_view(args@) == before + strings_view(extra@).take(i as int),
            decreases extra@.len() - i,
        {
            let c = extra[i].clone();
            let ghost a0 = args@;
            args.push(c);
            assert(args@ == a0.push(c));
            assert(c@ == extra@[i as int]@);
            assert(strings_view(args@) =~= strings_view(a0).push(c@));
            assert(strings_view(extra@).take(i + 1) =~= strings_view(extra@).take(i as int).push(
                c@,
            ));
            i = i + 1;
            assert(strings_view(args@) =~= before + strings_view(extra@).take(i as int));
        }
        assert(strings_view(extra@).take(i as int) =~= strings_view(extra@));
        ProgramCall {
            program: "cargo".to_owned(),
            arg0: None,
            args,
            current_dir: Some(self.pkg_path.clone()),
        }
    }

    fn build_step(&self, force_color: bool, cache: &str, script_args: &Vec<String>) -> (r:
        CommandStep)
        ensures
            is_build_step(r, *self, force_color, cache@, strings_view(script_args@)),
    {
        if self.build_kind == BuildKind::Normal {
            let none: Vec<String> = Vec::new();
            assert(strings_view(none@) =~= Seq::<Seq<char>>::empty());
            CommandStep::Build(self.cargo_call(force_color, cache, &none))
        } else {
            CommandStep::Execute(self.cargo_call(force_color, cache, script_args))
        }
    }

    /// The next step towards the command to execute, after `event`.
    /// A plain build that is not forced first looks whether the binary
    /// built before is at least as new as the script and the manifest, and
    /// runs it if so; else Cargo builds it (the build must succeed before
    /// the binary runs). Tests and benchmarks run through Cargo. `cache` is
    /// the binary cache, `force_color` whether Cargo is to colour its
    /// output. A `wrapper` command, where there is one, is split into words
    /// and run with the binary after it; it must split where the binary is
    /// to run.
    pub fn command_to_execute(
        &self,
        event: CommandEvent,
        force_color: bool,
        cache: &str,
        script_args: &Vec<String>,
        wrapper: &Option<String>,
    ) -> (r: CommandStep)
        requires
            runs_binary(*self, event) ==> wrapper_splits(*wrapper),
        ensures
            is_next_step(
                r,
                *self,
                event,
                force_color,
                cache@,
                strings_view(script_args@),
                *wrapper,
            ),
    {
        match event {
            CommandEvent::Start => {
                if self.build_kind == BuildKind::Normal && !self.force_compile {
                    CommandStep::CheckBinary {
                        binary: self.built_binary_path(cache),
                        script: self.script_path.clone(),
                        manifest: self.manifest_path(),
                    }
                } else {
                    self.build_step(force_color, cache, script_args)
                }
            },
            CommandEvent::NoBinary => self.build_step(force_color, cache, script_args),
            CommandEvent::Times { binary, script, manifest } => {
                if binary >= script && binary >= manifest {
                    self.run_step(cache, script_args, wrapper)
                } else {
                    self.build_step(force_color, cache, script_args)
                }
            },
            CommandEvent::CargoExited(code) => {
                match code {
                    Some(0) => self.run_step(cache, script_args, wrapper),
                    _ => CommandStep::Fail(
                        MainError::OtherOwned("Could not execute cargo".to_owned()),
                    ),
                }
            },
        }
    }

    /// The next step after `event`, as `command_to_execute` gives it;
    /// `None` where the binary is to run under a wrapper command that does
    /// not split into words (a quote is left open).
    pub fn try_command_to_execute(
        &self,
        event: CommandEvent,
        force_color: bool,
        cache: &str,
        script_args: &Vec<String>,
        wrapper: &Option<String>,
    ) -> (r: Option<CommandStep>)
        ensures
            r is None <==> runs_binary(*self, event) && !wrapper_splits(*wrapper),
            r matches Some(s) ==> is_next_step(
                s,
                *self,
                event,
                force_color,
                cache@,
                strings_view(script_args@),
                *wrapper,
            ),
    {
        let runs = match &event {
            CommandEvent::Times { binary, script, manifest } => *binary >= *script && *binary
                >= *manifest,
            CommandEvent::CargoExited(code) => match code {
                Some(0) => true,
                _ => false,
            },
            _ => false,
        };
        if runs {
            if let Some(w) = wrapper {
                if shell_words_split(w.as_str()).is_none() {
                    return None;
                }
            }
        }
        Some(self.command_to_execute(event, force_color, cache, script_args, wrapper))
    }
}

} // verus!
