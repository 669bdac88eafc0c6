use rust_script::action::{decide_action_for, normalize_dependencies, InputAction};
use rust_script::arguments::Args;
use rust_script::build_kind::BuildKind;
use rust_script::command::{CommandEvent, CommandStep, ProgramCall};
use rust_script::input::Input;
use rust_script::prelude::prelude_items;

const PROJECTS: &str = "/home/user/.cache/rust-script/projects";
const BINARIES: &str = "/home/user/.cache/rust-script/binaries";
const OUTPUT_MARKER_CODE: &str = "println!(\"--output--\");";

fn expr_args(code: &str, deps: &[&str]) -> Args {
    Args {
        script: Some(code.to_string()),
        script_args: Vec::new(),
        expr: true,
        loop_: false,
        count: false,
        pkg_path: None,
        gen_pkg_only: false,
        cargo_output: false,
        clear_cache: false,
        debug: false,
        dep: deps.iter().map(|d| d.to_string()).collect(),
        extern_: Vec::new(),
        force: false,
        unstable_features: Vec::new(),
        build_kind: BuildKind::Normal,
        toolchain_version: None,
        wrapper: None,
    }
}

fn plan(args: &Args) -> InputAction {
    let input = Input::Expr(args.script.clone().unwrap(), "/work".to_string());
    let deps = normalize_dependencies(&args.dep).unwrap();
    let prelude = prelude_items(&args.unstable_features, &Vec::new());
    decide_action_for(&input, &deps, &prelude, args, PROJECTS).unwrap()
}

fn strings(v: &[&str]) -> Vec<String> {
    v.iter().map(|s| s.to_string()).collect()
}

/// Walks a plain build: the binary is looked for, not found, built, and run.
fn build_and_run(a: &InputAction) -> ProgramCall {
    let none: Vec<String> = Vec::new();
    match a.command_to_execute(CommandEvent::Start, false, BINARIES, &none, &None) {
        CommandStep::CheckBinary { binary, script, manifest } => {
            assert_eq!(binary, format!("{}/release/{}", BINARIES, a.bin_name));
            assert_eq!(script, format!("{}/expr.rs", a.pkg_path));
            assert_eq!(manifest, format!("{}/Cargo.toml", a.pkg_path));
        }
        other => panic!("unexpected step {:?}", other),
    }
    match a.command_to_execute(CommandEvent::NoBinary, false, BINARIES, &none, &None) {
        CommandStep::Build(c) => {
            assert_eq!(c.program, "cargo");
            assert_eq!(c.args, strings(&["build", "-q", "--target-dir", BINARIES, "--release"]));
            assert_eq!(c.current_dir, Some(a.pkg_path.clone()));
        }
        other => panic!("unexpected step {:?}", other),
    }
    match a.command_to_execute(CommandEvent::CargoExited(Some(0)), false, BINARIES, &none, &None) {
        CommandStep::Execute(c) => {
            assert_eq!(c.program, format!("{}/release/{}", BINARIES, a.bin_name));
            c
        }
        other => panic!("unexpected step {:?}", other),
    }
}

fn printed_expression(a: &InputAction, code: &str) {
    let src = a.script.clone().unwrap();
    assert!(src.contains(&format!("match {{{}}} {{", code)));
    assert!(src.contains("=> println!(\"{:?}\", __rust_script_expr),"));
}

#[test]
fn test_expr_0() {
    let code = format!("{}{}", OUTPUT_MARKER_CODE, "0");
    let a = plan(&expr_args(&code, &[]));
    printed_expression(&a, &code);
    assert!(a.bin_name.starts_with("expr_"));
    assert!(a.pkg_path.starts_with(PROJECTS));
    let run = build_and_run(&a);
    assert!(run.args.is_empty());
}

#[test]
fn test_expr_comma() {
    let code = format!("{}{}", OUTPUT_MARKER_CODE, "[1, 2, 3]");
    let a = plan(&expr_args(&code, &[]));
    printed_expression(&a, &code);
    build_and_run(&a);
}

#[test]
fn test_expr_dnc() {
    let a = plan(&expr_args("swing begin", &[]));
    printed_expression(&a, "swing begin");
    let none: Vec<String> = Vec::new();
    match a.command_to_execute(CommandEvent::CargoExited(Some(101)), false, BINARIES, &none, &None) {
        CommandStep::Fail(e) => assert_eq!(e.message(), "Could not execute cargo"),
        other => panic!("unexpected step {:?}", other),
    }
}

#[test]
fn test_expr_temporary() {
    let a = plan(&expr_args("[1].iter().max()", &[]));
    printed_expression(&a, "[1].iter().max()");
    build_and_run(&a);
}

#[test]
fn test_expr_dep() {
    let code = format!("{}{}{}", "use boolinator::Boolinator;", OUTPUT_MARKER_CODE, "true.as_some(1)");
    let a = plan(&expr_args(&code, &["boolinator=0.1.0"]));
    printed_expression(&a, &code);
    assert!(a.manifest.contains("[dependencies]\nboolinator = \"0.1.0\"\n"));
    build_and_run(&a);
}

#[test]
fn test_expr_panic() {
    let code = format!("{}{}", OUTPUT_MARKER_CODE, "panic!()");
    let a = plan(&expr_args(&code, &[]));
    printed_expression(&a, &code);
    let run = build_and_run(&a);
    assert_eq!(run.arg0, Some(code));
}

#[test]
fn test_expr_qmark() {
    let code = format!("{}{}", OUTPUT_MARKER_CODE, "\"42\".parse::<i32>()?.wrapping_add(1)");
    let a = plan(&expr_args(&code, &[]));
    printed_expression(&a, &code);
    let src = a.script.clone().unwrap();
    assert!(src.contains("fn try_main() -> Result<(), Box<dyn std::error::Error>> {"));
    build_and_run(&a);
}
