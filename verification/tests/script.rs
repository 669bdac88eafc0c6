use rust_script::action::{decide_action_for, normalize_dependencies, InputAction};
use rust_script::arguments::Args;
use rust_script::build_kind::BuildKind;
use rust_script::command::{CommandEvent, CommandStep, ProgramCall};
use rust_script::input::Input;
use rust_script::manifest::find_embedded_manifest;

const WORK: &str = "/work";
const PROJECTS: &str = "/home/user/.cache/rust-script/projects";
const BINARIES: &str = "/home/user/.cache/rust-script/binaries";
const MAIN_PREFIX: &str = "fn main() -> Result<(), Box<dyn std::error::Error+Sync+Send>> {\n    {\n    ";
const MAIN_SUFFIX: &str = "    }\n    Ok(())\n}";

const BOOLINATOR_MAIN: &str = "use boolinator::Boolinator;
fn main() {
    println!(\"--output--\");
    println!(\"{:?}\", true.as_some(1));
}
";

fn script_args(flags: &[&str], script: &str, rest: &[&str]) -> Args {
    let mut a = Args {
        script: Some(script.to_string()),
        script_args: rest.iter().map(|s| s.to_string()).collect(),
        expr: false,
        loop_: false,
        count: false,
        pkg_path: None,
        gen_pkg_only: false,
        cargo_output: false,
        clear_cache: false,
        debug: false,
        dep: Vec::new(),
        extern_: Vec::new(),
        force: false,
        unstable_features: Vec::new(),
        build_kind: BuildKind::Normal,
        toolchain_version: None,
        wrapper: None,
    };
    let mut i = 0;
    while i < flags.len() {
        match flags[i] {
            "--test" => a.build_kind = BuildKind::Test,
            "-d" => {
                i += 1;
                a.dep.push(flags[i].to_string());
            }
            other => panic!("flag not handled here: {}", other),
        }
        i += 1;
    }
    a
}

/// The input for a script file at `rel` (from the working directory) with
/// the given contents, as the program makes it.
fn file_input(rel: &str, content: &str) -> Input {
    let path = std::path::Path::new(WORK).join(rel);
    let name = path.file_stem().unwrap().to_string_lossy().into_owned();
    let base = path.parent().unwrap().to_string_lossy().into_owned();
    Input::File(name, path.to_string_lossy().into_owned(), content.to_string(), base)
}

fn plan(input: &Input, args: &Args) -> InputAction {
    let deps = normalize_dependencies(&args.dep).unwrap();
    decide_action_for(input, &deps, &Vec::new(), args, PROJECTS).unwrap()
}

fn strings(v: &[&str]) -> Vec<String> {
    v.iter().map(|s| s.to_string()).collect()
}

/// Walks a plain build: the binary is looked for, not found, built, and run.
fn build_and_run(a: &InputAction, args: &Args) -> ProgramCall {
    let sa = args.script_args.clone();
    let binary = format!("{}/release/{}", BINARIES, a.bin_name);
    match a.command_to_execute(CommandEvent::Start, false, BINARIES, &sa, &None) {
        CommandStep::CheckBinary { binary: b, script, manifest } => {
            assert_eq!(b, binary);
            assert_eq!(script, a.script_path);
            assert_eq!(manifest, format!("{}/Cargo.toml", a.pkg_path));
        }
        other => panic!("unexpected step {:?}", other),
    }
    match a.command_to_execute(CommandEvent::NoBinary, false, BINARIES, &sa, &None) {
        CommandStep::Build(c) => {
            assert_eq!(c.program, "cargo");
            assert_eq!(c.args, strings(&["build", "-q", "--target-dir", BINARIES, "--release"]));
            assert_eq!(c.current_dir, Some(a.pkg_path.clone()));
        }
        other => panic!("unexpected step {:?}", other),
    }
    match a.command_to_execute(CommandEvent::CargoExited(Some(0)), false, BINARIES, &sa, &None) {
        CommandStep::Execute(c) => {
            assert_eq!(c.program, binary);
            assert_eq!(c.arg0, args.script.clone());
            assert_eq!(c.args, args.script_args);
            c
        }
        other => panic!("unexpected step {:?}", other),
    }
}

/// The package of a script runs the script unchanged.
fn run_unchanged(rel: &str, content: &str, flags: &[&str]) -> InputAction {
    let args = script_args(flags, rel, &[]);
    let a = plan(&file_input(rel, content), &args);
    assert_eq!(a.script, Some(content.to_string()));
    build_and_run(&a, &args);
    a
}

fn has_boolinator(a: &InputAction, version: &str) {
    assert!(a.manifest.contains(&format!("[dependencies]\nboolinator = \"{}\"\n", version)));
}

#[test]
fn test_script_explicit() {
    let a = run_unchanged("tests/data/script-explicit.rs", BOOLINATOR_MAIN, &["-d", "boolinator"]);
    has_boolinator(&a, "*");
}

#[test]
fn test_script_full_block() {
    let content = format!(
        "/*!\n```cargo\n[dependencies]\nboolinator = \"=0.1.0\"\n```\n*/\n{}",
        BOOLINATOR_MAIN
    );
    let a = run_unchanged("tests/data/script-full-block.rs", &content, &[]);
    has_boolinator(&a, "=0.1.0");
}

#[test]
fn test_script_full_line() {
    let content = format!(
        "//! ```cargo\n//! [dependencies]\n//! boolinator = \"=0.1.0\"\n//! ```\n{}",
        BOOLINATOR_MAIN
    );
    let a = run_unchanged("tests/data/script-full-line.rs", &content, &[]);
    has_boolinator(&a, "=0.1.0");
}

#[test]
fn test_script_full_line_without_main() {
    let body = "/*!
This is merged into a default manifest in order to form the full package manifest:

```cargo
[dependencies]
boolinator = \"=0.1.0\"
```
*/
use boolinator::Boolinator;

println!(\"--output--\");
println!(\"{:?}\", true.as_some(1));
";
    let content = format!("#!/usr/bin/env rust-script\n{}", body);
    let rel = "tests/data/script-full-line-without-main.rs";
    let args = script_args(&[], rel, &[]);
    let a = plan(&file_input(rel, &content), &args);
    assert_eq!(a.script, Some(format!("{}{}{}", MAIN_PREFIX, body, MAIN_SUFFIX)));
    has_boolinator(&a, "=0.1.0");
    build_and_run(&a, &args);
}

#[test]
fn test_script_main_with_space() {
    let content = "fn main () {\n    println!(\"--output--\");\n    println!(\"Hello, World!\");\n}\n";
    run_unchanged("tests/data/script-main-with-spaces.rs", content, &[]);
}

#[test]
fn test_script_invalid_doc_comment() {
    let content = "/*!\n * A doc comment\n that does not line up.\n */\nfn main() {\n    println!(\"--output--\");\n    println!(\"Hello, World!\");\n}\n";
    assert_eq!(find_embedded_manifest(content), None);
    let a = run_unchanged("tests/data/script-invalid-doc-comment.rs", content, &[]);
    assert!(a.manifest.contains("[dependencies]\n\n"));
}

#[test]
fn test_script_no_deps() {
    let content = "fn main() {\n    println!(\"--output--\");\n    println!(\"Hello, World!\");\n}\n";
    let a = run_unchanged("tests/data/script-no-deps.rs", content, &[]);
    assert!(a.manifest.contains("[dependencies]\n\n"));
}

#[test]
fn test_script_short() {
    let content = "// cargo-deps: boolinator=\"=0.1.0\"
// You can also leave off the version number, in which case, it's assumed
// to be \"*\".  Also, the `cargo-deps` comment *must* be a single-line
// comment, and it *must* be the first thing in the file, after the
// hashbang.
extern crate boolinator;
use boolinator::Boolinator;
fn main() {
    println!(\"--output--\");
    println!(\"{:?}\", true.as_some(1));
}
";
    let a = run_unchanged("tests/data/script-short.rs", content, &[]);
    has_boolinator(&a, "=0.1.0");
}

#[test]
fn test_script_short_without_main() {
    let body = "// cargo-deps: boolinator=\"=0.1.0\"
use boolinator::Boolinator;
println!(\"--output--\");
println!(\"{:?}\", true.as_some(1));
";
    let rel = "tests/data/script-short-without-main.rs";
    let args = script_args(&[], rel, &[]);
    let a = plan(&file_input(rel, body), &args);
    assert_eq!(a.script, Some(format!("{}{}{}", MAIN_PREFIX, body, MAIN_SUFFIX)));
    has_boolinator(&a, "=0.1.0");
    build_and_run(&a, &args);
}

const TEST_SCRIPT: &str = "#[test]
fn it_works() {
    println!(\"Hello, world!\");
}
";

/// With `--test`, Cargo itself is run, in debug mode, with the given
/// arguments after its own.
fn cargo_test_call(rest: &[&str]) -> ProgramCall {
    let rel = "tests/data/script-test-extra-args.rs";
    let args = script_args(&["--test"], rel, rest);
    let a = plan(&file_input(rel, TEST_SCRIPT), &args);
    assert!(a.debug);
    assert_eq!(a.build_kind, BuildKind::Test);
    match a.command_to_execute(CommandEvent::Start, false, BINARIES, &args.script_args, &None) {
        CommandStep::Execute(c) => {
            assert_eq!(c.program, "cargo");
            assert_eq!(c.current_dir, Some(a.pkg_path.clone()));
            c
        }
        other => panic!("unexpected step {:?}", other),
    }
}

#[test]
fn test_script_test() {
    let rel = "tests/data/script-test.rs";
    let args = script_args(&["--test"], rel, &[]);
    let a = plan(&file_input(rel, TEST_SCRIPT), &args);
    match a.command_to_execute(CommandEvent::Start, false, BINARIES, &args.script_args, &None) {
        CommandStep::Execute(c) => {
            assert_eq!(c.program, "cargo");
            assert_eq!(c.args, strings(&["test", "--target-dir", BINARIES]));
        }
        other => panic!("unexpected step {:?}", other),
    }
}

#[test]
fn test_script_test_extra_args_for_cargo() {
    let c = cargo_test_call(&["--help"]);
    assert_eq!(c.args, strings(&["test", "--target-dir", BINARIES, "--help"]));
}

#[test]
fn test_script_test_extra_args_for_test() {
    let c = cargo_test_call(&["--", "--nocapture"]);
    assert_eq!(c.args, strings(&["test", "--target-dir", BINARIES, "--", "--nocapture"]));
}

#[test]
fn test_script_has_weird_chars() {
    let rel = "tests/data/script-has.weird§chars!.rs";
    let input = file_input(rel, "fn main() {}\n");
    assert_eq!(input.safe_name(), "script-has.weird§chars!");
    assert_eq!(input.package_name(), "script_has_weird_chars_");
    let a = run_unchanged(rel, "fn main() {}\n", &[]);
    assert!(a.manifest.contains("name = \"script_has_weird_chars_\""));
    assert!(a.manifest.contains("path = \"script-has.weird§chars!.rs\""));
    assert!(a.bin_name.starts_with("script_has_weird_chars__"));
}

#[test]
fn test_script_cs_env() {
    let input = file_input("tests/data/script-cs-env.rs", "fn main() {}\n");
    assert_eq!(input.path(), Some(&"/work/tests/data/script-cs-env.rs".to_string()));
    assert_eq!(input.safe_name(), "script-cs-env");
    assert_eq!(input.package_name(), "script_cs_env");
    assert_eq!(input.base_path(), "/work/tests/data");
}

#[test]
fn test_script_including_relative() {
    let content = "use std::env;

mod script_module {
    include!(concat!(env!(\"RUST_SCRIPT_BASE_PATH\"), \"/script-module.rs\"));
}

fn main() {
    println!(\"--output--\");
    let s = include_str!(concat!(env!(\"RUST_SCRIPT_BASE_PATH\"), \"/file-to-be-included.txt\"));
    assert_eq!(script_module::A_VALUE, 1);
    println!(\"{}\", s);
}
";
    let input = file_input("tests/data/script-including-relative.rs", content);
    assert_eq!(input.base_path(), "/work/tests/data");
    run_unchanged("tests/data/script-including-relative.rs", content, &[]);
}

#[test]
fn script_with_same_name_as_dependency() {
    let content = "// cargo-deps: time=\"0.1.25\"\nfn main() {\n    println!(\"--output--\");\n    println!(\"Hello\");\n}\n";
    let a = run_unchanged("tests/data/time.rs", content, &[]);
    assert!(a.manifest.contains("[dependencies]\ntime = \"0.1.25\"\n"));
    assert!(a.manifest.contains("name = \"time\""));
    assert!(a.bin_name.starts_with("time_"));
    assert_eq!(a.bin_name.len(), "time_".len() + 20);
}

#[test]
fn script_without_main_question_mark() {
    let body = "std::fs::File::open(\"not-existing\")?;\n";
    let rel = "tests/data/question-mark";
    let args = script_args(&[], rel, &[]);
    let input = file_input(rel, body);
    assert_eq!(input.safe_name(), "question-mark");
    let a = plan(&input, &args);
    assert_eq!(a.script, Some(format!("{}{}{}", MAIN_PREFIX, body, MAIN_SUFFIX)));
    assert!(a.script_path.ends_with("/question-mark.rs"));
    build_and_run(&a, &args);
}

#[test]
fn test_script_async_main() {
    let content = "//! This is merged into a default manifest in order to form the full package manifest:
//!
//! ```cargo
//! [dependencies]
//! boolinator = \"=0.1.0\"
//! tokio = { version = \"1\", features = [\"full\"] }
//! ```
use boolinator::Boolinator;

#[tokio::main]
async fn main() {
    println!(\"--output--\");
    println!(\"{:?}\", true.as_some(1));
}
";
    let a = run_unchanged("tests/data/script-async-main.rs", content, &[]);
    assert!(a.manifest.contains("boolinator = \"=0.1.0\"\n"));
    assert!(a.manifest.contains("[dependencies.tokio]\nfeatures = [\"full\"]\nversion = \"1\"\n"));
}

#[test]
fn test_pub_fn_main() {
    let content = "//! ```cargo
//! [dependencies]
//! boolinator = \"=0.1.0\"
//! ```
use boolinator::Boolinator;

pub fn main() {
    println!(\"--output--\");
    println!(\"{:?}\", true.as_some(1));
}
";
    let a = run_unchanged("tests/data/pub-fn-main.rs", content, &[]);
    has_boolinator(&a, "=0.1.0");
}

#[test]
fn test_cargo_target_dir_env() {
    let content = "use std::env;

pub fn main() {
    // Test that CARGO_TARGET_DIR is not set by rust-script to avoid
    // interfering with cargo calls done by the script.
    // See https://github.com/fornwall/rust-script/issues/27
    let env_variable = env::var(\"CARGO_TARGET_DIR\");
    println!(\"--output--\");
    println!(
        \"{:?}\",
        matches!(env_variable, Err(env::VarError::NotPresent))
    );
}
";
    let a = run_unchanged("tests/data/cargo-target-dir-env.rs", content, &[]);
    let none: Vec<String> = Vec::new();
    match a.command_to_execute(CommandEvent::NoBinary, false, BINARIES, &none, &None) {
        CommandStep::Build(c) => {
            let k = c.args.iter().position(|x| x == "--target-dir").unwrap();
            assert_eq!(c.args[k + 1], BINARIES);
        }
        other => panic!("unexpected step {:?}", other),
    }
}

#[test]
fn test_outer_line_doc() {
    let content = format!(
        "//! ```cargo\n//! [dependencies]\n//! boolinator = \"=0.1.0\"\n//! ```\n/// The entry point.\n{}",
        BOOLINATOR_MAIN
    );
    let a = run_unchanged("tests/data/outer-line-doc.rs", &content, &[]);
    has_boolinator(&a, "=0.1.0");
}

#[test]
fn test_whitespace_before_main() {
    let content = "\n\n    fn main() {\n        println!(\"--output--\");\n        println!(\"hello, world\");\n    }\n";
    run_unchanged("tests/data/whitespace-before-main.rs", content, &[]);
}

#[test]
fn test_same_flags() {
    let body = "println!(\"--output--\");
if let Some(arg) = std::env::args().skip(1).next() {
    println!(\"Argument: {}\", arg);
}
";
    let rel = "tests/data/same-flags.rs";
    let args = script_args(&[], rel, &["--help"]);
    let a = plan(&file_input(rel, body), &args);
    assert_eq!(a.script, Some(format!("{}{}{}", MAIN_PREFIX, body, MAIN_SUFFIX)));
    let run = build_and_run(&a, &args);
    assert_eq!(run.args, strings(&["--help"]));
}

#[test]
fn test_script_multiple_deps() {
    let args = script_args(
        &["-d", "serde_json=1.0.96", "-d", "anyhow=1.0.71"],
        "tests/data/script-using-anyhow-and-serde.rs",
        &[],
    );
    let deps = normalize_dependencies(&args.dep).unwrap();
    assert_eq!(
        deps,
        vec![
            ("anyhow".to_string(), "1.0.71".to_string()),
            ("serde_json".to_string(), "1.0.96".to_string())
        ]
    );
    let content = "fn main() {\n    println!(\"--output--\");\n    println!(\"Ok\");\n}\n";
    let a = plan(&file_input("tests/data/script-using-anyhow-and-serde.rs", content), &args);
    assert!(a
        .manifest
        .contains("[dependencies]\nanyhow = \"1.0.71\"\nserde_json = \"1.0.96\"\n"));
    build_and_run(&a, &args);
}

#[test]
fn test_extern_c_main() {
    let body = "//! ```cargo
//! [dependencies]
//! libc = { version = \"0.2\", default-features = false }
//!
//! [profile.release]
//! strip = true
//! lto = true
//! opt-level = \"s\" # \"z\"
//! codegen-units = 1
//! panic = \"abort\"
//! ```

#![no_std]
#![no_main]

#[panic_handler]
fn my_panic(_info: &core::panic::PanicInfo) -> ! {
    loop {}
}

#[no_mangle]
pub extern \"C\" fn main(_argc: isize, _argv: *const *const u8) -> isize {
    unsafe {
        libc::printf(\"--output--\\n\\0\".as_ptr() as *const _);
        libc::printf(\"hello, world\\n\\0\".as_ptr() as *const _);
    }
    0
}
";
    let content = format!("#!/usr/bin/env rust-script\n{}", body);
    let rel = "tests/data/extern-c-main.rs";
    let args = script_args(&[], rel, &[]);
    let a = plan(&file_input(rel, &content), &args);
    assert_eq!(a.script, Some(format!("\n{}", body)));
    assert!(a.manifest.contains("[dependencies.libc]\ndefault-features = false\nversion = \"0.2\"\n"));
    assert!(a.manifest.contains("panic = \"abort\""));
    build_and_run(&a, &args);
}
