use rust_script::action::{decide_action_for, normalize_dependencies, InputAction};
use rust_script::arguments::Args;
use rust_script::build_kind::BuildKind;
use rust_script::cache::{clean_cache, CacheEntry};
use rust_script::command::{CommandEvent, CommandStep};
use rust_script::comments::extract_comment;
use rust_script::error::MainError;
use rust_script::file_assoc::{handler_path, open_command, pathext_with_ers, pathext_without_ers};
use rust_script::fix_paths::fix_manifest_paths;
use rust_script::input::Input;
use rust_script::manifest::{deps_manifest, Manifest};
use rust_script::merge::merge_manifest;
use rust_script::package::{default_manifest, split_input};
use rust_script::platform::{
    binary_cache_path, cache_dir, cache_dir_in, current_time, force_cargo_color,
    generated_projects_cache_path,
};
use rust_script::prelude::prelude_items;
use rust_script::templates::{builtin_template, expand, get_template};
use rust_script::util::{ChainMap, Defer};
use sha1::Digest;

fn strings(v: &[&str]) -> Vec<String> {
    v.iter().map(|s| s.to_string()).collect()
}

fn table(entries: &[(&str, toml::Value)]) -> toml::Value {
    let mut m = toml::map::Map::new();
    for (k, v) in entries {
        m.insert(k.to_string(), v.clone());
    }
    toml::Value::Table(m)
}

fn text(s: &str) -> toml::Value {
    toml::Value::String(s.to_string())
}

fn entries(v: toml::Value) -> toml::Table {
    match v {
        toml::Value::Table(m) => m,
        _ => panic!("not a table"),
    }
}

fn args_for(script: &str) -> Args {
    Args {
        script: Some(script.to_string()),
        script_args: Vec::new(),
        expr: false,
        loop_: false,
        count: false,
        pkg_path: None,
        gen_pkg_only: false,
        cargo_output: false,
        clear_cache: false,
        debug: false,
        dep: Vec::new(),
        extern_: Vec::new(),
        force: false,
        unstable_features: Vec::new(),
        build_kind: BuildKind::Normal,
        toolchain_version: None,
        wrapper: None,
    }
}

fn script(content: &str) -> Input {
    Input::File(
        "s".to_string(),
        "/w/s.rs".to_string(),
        content.to_string(),
        "/w".to_string(),
    )
}

fn plan(input: &Input, args: &Args) -> InputAction {
    let deps = normalize_dependencies(&args.dep).unwrap();
    decide_action_for(input, &deps, &Vec::new(), args, "/c/projects").unwrap()
}

#[test]
fn dependencies_sorted_and_defaulted() {
    let deps = normalize_dependencies(&strings(&["time", "anyhow=1.0", "libc={ version = \"0.2\" }"]))
        .unwrap();
    assert_eq!(
        deps,
        vec![
            ("anyhow".to_string(), "1.0".to_string()),
            ("libc".to_string(), "{ version = \"0.2\" }".to_string()),
            ("time".to_string(), "*".to_string()),
        ]
    );
}

#[test]
fn dependencies_in_any_order() {
    let a = normalize_dependencies(&strings(&["b=2", "a=1", "c"])).unwrap();
    let b = normalize_dependencies(&strings(&["c", "b=2", "a=1"])).unwrap();
    assert_eq!(a, b);
}

#[test]
fn dependency_errors() {
    let e = normalize_dependencies(&strings(&["=1.0"])).unwrap_err();
    assert_eq!(e.message(), "cannot have empty dependency package name");
    let e = normalize_dependencies(&strings(&["time="])).unwrap_err();
    assert_eq!(e.message(), "cannot have empty dependency version");
    let e = normalize_dependencies(&strings(&["time=1", "libc", "time=2"])).unwrap_err();
    assert_eq!(e.message(), "duplicated dependency: 'time'");
}

#[test]
fn prelude_items_sorted_in_any_order() {
    let items = strings(&["#[macro_use] use a;"]);
    let a = prelude_items(&strings(&["try_blocks", "box_patterns"]), &items);
    let b = prelude_items(&strings(&["box_patterns", "try_blocks"]), &items);
    assert_eq!(a, b);
    assert_eq!(
        a,
        strings(&["#![feature(box_patterns)]", "#![feature(try_blocks)]", "#[macro_use] use a;"])
    );
}

#[test]
fn script_package_found_by_path() {
    let deps = vec![("time".to_string(), "1".to_string())];
    let a = Input::File("a".into(), "/w/x.rs".into(), "fn main() {}".into(), "/w".into());
    let b = Input::File("b".into(), "/w/x.rs".into(), "println!();".into(), "/v".into());
    assert_eq!(a.compute_id(&Vec::new()), b.compute_id(&deps));
    let digest = sha1::Sha1::digest("/w/x.rs".as_bytes());
    let hex: String = digest.iter().map(|b| format!("{:02x}", b)).collect();
    assert_eq!(a.compute_id(&deps), hex[..20].to_string());
}

#[test]
fn expression_package_by_text_and_dependencies() {
    let deps = vec![("time".to_string(), "1".to_string())];
    let a = Input::Expr("1+2".into(), "/w".into());
    let b = Input::Expr("1+2".into(), "/elsewhere".into());
    assert_eq!(a.compute_id(&deps), b.compute_id(&deps));
    assert_ne!(a.compute_id(&deps), a.compute_id(&Vec::new()));
    let digest = sha1::Sha1::digest("dep=time=1;1+2".as_bytes());
    let hex: String = digest.iter().map(|b| format!("{:02x}", b)).collect();
    assert_eq!(a.compute_id(&deps), hex[..20].to_string());
    let l = Input::Loop("|l| l".into(), true, "/w".into());
    let digest = sha1::Sha1::digest("count:true;|l| l".as_bytes());
    let hex: String = digest.iter().map(|b| format!("{:02x}", b)).collect();
    assert_eq!(l.compute_id(&Vec::new()), hex[..20].to_string());
}

#[test]
fn script_without_main_is_wrapped() {
    let (_, src) = split_input(&script("println!(\"hi\");\n"), &Vec::new(), &Vec::new(), "id").unwrap();
    assert_eq!(
        src,
        "fn main() -> Result<(), Box<dyn std::error::Error+Sync+Send>> {\n    {\n    println!(\"hi\");\n    }\n    Ok(())\n}"
    );
}

#[test]
fn shebang_keeps_line_numbers() {
    let (_, src) = split_input(
        &script("#!/usr/bin/env rust-script\nfn main() {}\n"),
        &Vec::new(),
        &Vec::new(),
        "id",
    )
    .unwrap();
    assert_eq!(src, "\nfn main() {}\n");
    let (_, src) = split_input(&script("#![allow(unused)]\nfn main() {}\n"), &Vec::new(), &Vec::new(), "id")
        .unwrap();
    assert_eq!(src, "#![allow(unused)]\nfn main() {}\n");
}

#[test]
fn main_declarations() {
    for body in [
        "pub fn main() {}\n",
        "async fn main() {}\n",
        "pub async fn main() {}\n",
        "  fn main\t() {}\n",
    ] {
        let (_, src) = split_input(&script(body), &Vec::new(), &Vec::new(), "id").unwrap();
        assert_eq!(src, body);
    }
    let (_, src) = split_input(&script("fn mainly() {}\n"), &Vec::new(), &Vec::new(), "id").unwrap();
    assert!(src.starts_with("fn main() -> Result<"));
}

#[test]
fn expression_package_source() {
    let input = Input::Expr("1+2".into(), "/w".into());
    let prelude = strings(&["#![feature(box_patterns)]"]);
    let (mani, src) = split_input(&input, &Vec::new(), &prelude, "abc").unwrap();
    assert!(src.starts_with("#![feature(box_patterns)]\n\nuse std::any::{Any, TypeId};"));
    assert!(src.contains("    match {1+2} {\n"));
    assert!(mani.contains("name = \"expr_abc\"\npath = \"expr.rs\""));
    let input = Input::Loop("|l| l".into(), true, "/w".into());
    let (_, src) = split_input(&input, &Vec::new(), &Vec::new(), "abc").unwrap();
    assert!(src.contains("let mut closure = enforce_closure({|l| l});"));
    assert!(src.contains("where F: FnMut(&str, usize) -> T {"));
}

#[test]
fn embedded_manifest_errors() {
    let e = split_input(&script("// cargo-deps: time=\"1\" = 2\nfn main() {}\n"), &Vec::new(), &Vec::new(), "id")
        .unwrap_err();
    assert!(e.message().starts_with("could not parse embedded manifest: "));
}

#[test]
fn merging_manifests() {
    let into = entries(table(&[
        ("dependencies", table(&[("a", text("1"))])),
        ("package", table(&[("name", text("n")), ("version", text("0.1.0"))])),
    ]));
    let from = entries(table(&[
        ("dependencies", table(&[("b", text("2"))])),
        ("package", table(&[("version", text("0.2.0"))])),
        ("workspace", text("w")),
    ]));
    let merged = merge_manifest(into, from).unwrap();
    let want = entries(table(&[
        ("dependencies", table(&[("a", text("1")), ("b", text("2"))])),
        ("package", table(&[("name", text("n")), ("version", text("0.2.0"))])),
        ("workspace", text("w")),
    ]));
    assert_eq!(merged, want);

    let into = entries(table(&[("dependencies", text("none"))]));
    let from = entries(table(&[("dependencies", table(&[("b", text("2"))]))]));
    let e = merge_manifest(into, from).unwrap_err();
    assert_eq!(e.message(), "cannot merge manifests: cannot merge table and non-table values");

    let into = entries(table(&[("a", text("1"))]));
    assert_eq!(merge_manifest(into.clone(), toml::Table::new()).unwrap(), into);
}

#[test]
fn fixing_paths() {
    let mani = entries(table(&[
        ("dependencies", table(&[("a", table(&[("path", text("../a"))])), ("b", table(&[("path", text("/abs/b"))]))])),
        ("package", table(&[("build", text("build.rs")), ("name", text("x"))])),
        (
            "target",
            table(&[("unix", table(&[("dependencies", table(&[("c", table(&[("path", text("c"))]))]))]))]),
        ),
    ]));
    let once = fix_manifest_paths(mani, "/base");
    let want = entries(table(&[
        ("dependencies", table(&[("a", table(&[("path", text("/base/../a"))])), ("b", table(&[("path", text("/abs/b"))]))])),
        ("package", table(&[("build", text("/base/build.rs")), ("name", text("x"))])),
        (
            "target",
            table(&[("unix", table(&[("dependencies", table(&[("c", table(&[("path", text("/base/c"))]))]))]))]),
        ),
    ]));
    assert_eq!(once, want);
    let twice = fix_manifest_paths(once.clone(), "/base");
    assert_eq!(twice, once);
}

#[test]
fn templates() {
    let subs = vec![("a", "#{b}"), ("b", "x")];
    assert_eq!(expand("<#{a}|#{b}>", &subs).unwrap(), "<#{b}|x>");
    assert_eq!(expand("no placeholders #{", &subs).unwrap(), "no placeholders #{");
    let e = expand("#{c}", &subs).unwrap_err();
    assert_eq!(e.message(), "substitution `c` in template is unknown");
    assert_eq!(builtin_template("file"), Some("#{script}"));
    assert_eq!(builtin_template("nope"), None);
    assert_eq!(get_template("file").unwrap(), "#{script}");
    assert_eq!(get_template("shout").unwrap_err().message(), "No such template: shout");
}

#[test]
fn comment_errors() {
    let e = extract_comment("//!    a\n//! b\n").unwrap_err();
    assert_eq!(e.message(), "leading 4 chars aren't all spaces: \" b\"");
    let e = extract_comment("fn main() {}").unwrap_err();
    assert_eq!(e.message(), "no doc comment found");
    assert_eq!(extract_comment("/*! a /* b */ c */ d").unwrap(), "a /* b */ c \n");
}

#[test]
fn cleaning_the_cache() {
    let es = vec![
        CacheEntry { path: "/c/old".into(), is_file: false, modified: 100 },
        CacheEntry { path: "/c/file".into(), is_file: true, modified: 0 },
        CacheEntry { path: "/c/new".into(), is_file: false, modified: 901 },
        CacheEntry { path: "/c/edge".into(), is_file: false, modified: 900 },
    ];
    let plan = clean_cache(100, 1000, &es);
    assert!(!plan.clear_binaries);
    assert_eq!(plan.remove, strings(&["/c/old", "/c/edge"]));
    let plan = clean_cache(0, 1000, &es);
    assert!(plan.clear_binaries);
    assert_eq!(plan.remove, strings(&["/c/old", "/c/new", "/c/edge"]));
}

#[test]
fn current_binary_is_reused() {
    let args = args_for("s.rs");
    let a = plan(&script("fn main() {}\n"), &args);
    let none: Vec<String> = Vec::new();
    let times = CommandEvent::Times { binary: 10, script: 10, manifest: 9 };
    match a.command_to_execute(times, false, "/c/bin", &none, &None) {
        CommandStep::Execute(c) => {
            assert_eq!(c.program, format!("/c/bin/release/{}", a.bin_name));
            assert_eq!(c.arg0, Some("s.rs".to_string()));
        }
        other => panic!("unexpected step {:?}", other),
    }
    let times = CommandEvent::Times { binary: 10, script: 11, manifest: 9 };
    match a.command_to_execute(times, true, "/c/bin", &none, &None) {
        CommandStep::Build(c) => {
            assert_eq!(c.args, strings(&["build", "-q", "--color", "always", "--target-dir", "/c/bin", "--release"]));
        }
        other => panic!("unexpected step {:?}", other),
    }
    match a.command_to_execute(CommandEvent::CargoExited(None), false, "/c/bin", &none, &None) {
        CommandStep::Fail(e) => assert_eq!(e.message(), "Could not execute cargo"),
        other => panic!("unexpected step {:?}", other),
    }
}

#[test]
fn forced_and_debug_builds() {
    let mut args = args_for("s.rs");
    args.force = true;
    args.debug = true;
    args.cargo_output = true;
    args.toolchain_version = Some("1.70".into());
    let a = plan(&script("fn main() {}\n"), &args);
    assert!(!a.release_mode());
    let none: Vec<String> = Vec::new();
    match a.command_to_execute(CommandEvent::Start, false, "/c/bin", &none, &None) {
        CommandStep::Build(c) => {
            assert_eq!(c.args, strings(&["+1.70", "build", "--target-dir", "/c/bin"]));
        }
        other => panic!("unexpected step {:?}", other),
    }
    assert_eq!(a.built_binary_path("/c/bin"), format!("/c/bin/debug/{}", a.bin_name));
}

#[test]
fn benchmarks_on_nightly() {
    let mut args = args_for("s.rs");
    args.build_kind = BuildKind::Bench;
    let a = plan(&script("fn main() {}\n"), &args);
    assert_eq!(a.toolchain_version, Some("nightly".to_string()));
    assert!(!a.debug);
    match a.command_to_execute(CommandEvent::Start, false, "/c/bin", &strings(&["x"]), &None) {
        CommandStep::Execute(c) => {
            assert_eq!(c.args, strings(&["+nightly", "bench", "--target-dir", "/c/bin", "x"]));
        }
        other => panic!("unexpected step {:?}", other),
    }
}

#[test]
fn package_path_given() {
    let mut args = args_for("s.rs");
    args.pkg_path = Some("/my/pkg".into());
    args.gen_pkg_only = true;
    let a = plan(&script("fn main() {}\n"), &args);
    assert_eq!(a.pkg_path, "/my/pkg");
    assert!(!a.using_cache);
    assert!(!a.execute);
    assert_eq!(a.script_path, "/my/pkg/s.rs");
    assert_eq!(a.manifest_path(), "/my/pkg/Cargo.toml");
    let b = plan(&script("fn main() {}\n"), &args_for("s.rs"));
    assert!(b.using_cache);
    assert_eq!(b.pkg_path, format!("/c/projects/{}", b.bin_name.trim_start_matches("s_")));
}

#[test]
fn build_kinds() {
    assert_eq!(BuildKind::from_flags(false, false), BuildKind::Normal);
    assert_eq!(BuildKind::from_flags(true, false), BuildKind::Test);
    assert_eq!(BuildKind::from_flags(false, true), BuildKind::Bench);
    assert_eq!(BuildKind::Normal.exec_command(), "build");
    assert_eq!(BuildKind::Test.exec_command(), "test");
    assert_eq!(BuildKind::Bench.exec_command(), "bench");
}

#[test]
fn file_association_text() {
    assert_eq!(pathext_with_ers(".COM;.EXE"), Some(".COM;.EXE;.ERS".to_string()));
    assert_eq!(pathext_with_ers(".COM;.Ers"), None);
    assert_eq!(pathext_without_ers(".COM;.ers;.EXE;.ERS"), Some(".COM;.EXE".to_string()));
    assert_eq!(pathext_without_ers(".COM;.EXE"), None);
    let added = pathext_with_ers(".COM;.EXE").unwrap();
    assert_eq!(pathext_without_ers(&added), Some(".COM;.EXE".to_string()));
    assert_eq!(handler_path("\\\\?\\C:\\bin\\rust-script.exe"), "C:\\bin\\rust-script.exe");
    assert_eq!(handler_path("C:\\bin\\rust-script.exe"), "C:\\bin\\rust-script.exe");
    assert_eq!(open_command("C:\\rs.exe"), "\"C:\\rs.exe\" \"%1\" %*");
}

#[test]
fn machine_dependent_values() {
    assert_eq!(cache_dir_in("/home/u/.cache"), "/home/u/.cache/rust-script");
    if let Some(d) = cache_dir() {
        assert!(d.ends_with("/rust-script"));
    }
    if let Some(p) = generated_projects_cache_path() {
        assert!(p.ends_with("/rust-script/projects"));
    }
    if let Some(p) = binary_cache_path() {
        assert!(p.ends_with("/rust-script/binaries"));
    }
    assert!(current_time() > 1_600_000_000_000);
    let _ = force_cargo_color();
}

#[test]
fn deferred_actions() {
    let counter = std::cell::Cell::new(0);
    let d: Defer<_, String> = Defer::defer(|| {
        counter.set(counter.get() + 1);
        Ok(())
    });
    assert_eq!(d.run(), Ok(()));
    assert_eq!(counter.get(), 1);
    let d: Defer<_, String> = Defer::defer(|| {
        counter.set(counter.get() + 1);
        Err("failed".to_string())
    });
    d.disarm();
    assert_eq!(counter.get(), 1);
    let d: Defer<_, String> = Defer::defer(|| Err("failed".to_string()));
    assert_eq!(d.run(), Err("failed".to_string()));
    assert_eq!(3i32.chain_map(|x| x * 2), 6);
}

#[test]
fn error_messages() {
    let io = std::io::Error::new(std::io::ErrorKind::Other, "disk on fire");
    assert_eq!(MainError::from(io).message(), "disk on fire");
    assert_eq!(MainError::from("borrowed").message(), "borrowed");
    assert_eq!(MainError::from("owned".to_string()).message(), "owned");
    let tagged = MainError::Tag("outer".to_string(), Box::new(MainError::Other("inner".to_string())));
    assert_eq!(tagged.message(), "outer: inner");
}

#[test]
fn wrapper_commands() {
    let a = plan(&script("fn main() {}\n"), &args_for("s.rs"));
    let binary = format!("/c/bin/release/{}", a.bin_name);
    let fresh = || CommandEvent::Times { binary: 10, script: 1, manifest: 1 };
    let sa = strings(&["x", "y"]);
    match a.command_to_execute(fresh(), false, "/c/bin", &sa, &Some("rr record".to_string())) {
        CommandStep::Execute(c) => {
            assert_eq!(c.program, "rr");
            assert_eq!(c.arg0, None);
            assert_eq!(c.args, vec!["record".to_string(), binary.clone(), "x".to_string(), "y".to_string()]);
        }
        other => panic!("unexpected step {:?}", other),
    }
    match a.command_to_execute(
        CommandEvent::CargoExited(Some(0)),
        false,
        "/c/bin",
        &Vec::new(),
        &Some("\"my tool\" -a\\ b".to_string()),
    ) {
        CommandStep::Execute(c) => {
            assert_eq!(c.program, "my tool");
            assert_eq!(c.args, vec!["-a b".to_string(), binary.clone()]);
        }
        other => panic!("unexpected step {:?}", other),
    }
    match a.command_to_execute(fresh(), false, "/c/bin", &sa, &Some("   ".to_string())) {
        CommandStep::Fail(e) => assert_eq!(e.message(), "The wrapper cannot be empty"),
        other => panic!("unexpected step {:?}", other),
    }
    let open = Some("\"unclosed".to_string());
    assert!(a.try_command_to_execute(fresh(), false, "/c/bin", &sa, &open).is_none());
    match a.try_command_to_execute(CommandEvent::Start, false, "/c/bin", &sa, &open) {
        Some(CommandStep::CheckBinary { .. }) => {}
        other => panic!("unexpected step {:?}", other),
    }
}

#[test]
fn package_names_are_identifiers() {
    let input = Input::File("a-b.c".into(), "/w/a-b.c.rs".into(), String::new(), "/w".into());
    assert_eq!(input.package_name(), "a_b_c");
    let input = Input::File("9Lives".into(), "/w/9Lives.rs".into(), String::new(), "/w".into());
    assert_eq!(input.package_name(), "_9lives");
}

#[test]
fn manifests_as_tables() {
    let input = Input::File("9Lives".into(), "/w/9Lives.rs".into(), String::new(), "/w".into());
    let t = default_manifest(&input, "abc").unwrap();
    let package = t["package"].as_table().unwrap();
    assert_eq!(package["name"].as_str(), Some("_9lives"));
    assert_eq!(package["edition"].as_str(), Some("2021"));
    let bin = t["bin"].as_array().unwrap()[0].as_table().unwrap();
    assert_eq!(bin["name"].as_str(), Some("_9lives_abc"));
    assert_eq!(bin["path"].as_str(), Some("9Lives.rs"));
    assert_eq!(t.keys().collect::<Vec<_>>(), vec!["bin", "package", "profile"]);

    let deps = vec![("time".to_string(), "0.1".to_string()), ("libc".to_string(), "*".to_string())];
    let t = deps_manifest(&deps).unwrap();
    let d = t["dependencies"].as_table().unwrap();
    assert_eq!(d["time"].as_str(), Some("0.1"));
    assert_eq!(d["libc"].as_str(), Some("*"));

    let t = Manifest::DepList("time, serde=\"1\"").into_toml().unwrap();
    let d = t["dependencies"].as_table().unwrap();
    assert_eq!(d["time"].as_str(), Some("*"));
    assert_eq!(d["serde"].as_str(), Some("1"));
    let e = Manifest::Toml("[a").into_toml().unwrap_err();
    assert!(e.message().starts_with("could not parse embedded manifest: "));
}
