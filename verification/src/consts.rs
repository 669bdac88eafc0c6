//! The big string literals of the program and a few limits.
use vstd::prelude::*;

verus! {

/// The name of the program, used for its cache directory.
pub const PROGRAM_NAME: &'static str = "rust-script";

/// The message printed when the program is invoked with no further arguments.
pub const NO_ARGS_MESSAGE: &'static str = "The following required arguments were not supplied:
\t'<script>'

USAGE:
\tcargo script [FLAGS OPTIONS] [--] <script> <args>...

For more information try --help";

/// The name of the placeholder a template holds the script in.
pub const SCRIPT_BODY_SUB: &'static str = "script";

/// The name of the placeholder a template holds the generated prelude in.
pub const SCRIPT_PRELUDE_SUB: &'static str = "prelude";

/// The name of the placeholder for the package name in the default manifest.
pub const MANI_NAME_SUB: &'static str = "name";

/// The name of the placeholder for the binary name in the default manifest.
pub const MANI_BIN_NAME_SUB: &'static str = "bin_name";

/// The name of the placeholder for the source file name in the default manifest.
pub const MANI_FILE_SUB: &'static str = "file";

/// The template used for script file inputs.
pub const FILE_TEMPLATE: &'static str = "#{script}";

/// The template used for `--expr` input: the value of the expression is
/// printed with `{:?}` unless it is `()`, and `?` may be used in it.
pub const EXPR_TEMPLATE: &'static str = r#"#{prelude}
use std::any::{Any, TypeId};

fn main() {
    let exit_code = match try_main() {
        Ok(()) => None,
        Err(e) => {
            use std::io::{self, Write};
            let _ = writeln!(io::stderr(), "Error: {}", e);
            Some(1)
        },
    };
    if let Some(exit_code) = exit_code {
        std::process::exit(exit_code);
    }
}

fn try_main() -> Result<(), Box<dyn std::error::Error>> {
    fn _rust_script_is_empty_tuple<T: ?Sized + Any>(_s: &T) -> bool {
        TypeId::of::<()>() == TypeId::of::<T>()
    }
    match {#{script}} {
        __rust_script_expr if !_rust_script_is_empty_tuple(&__rust_script_expr) => println!("{:?}", __rust_script_expr),
        _ => {}
    }
    Ok(())
}
"#;

/// The template used for `--loop` input, assuming no `--count` flag is also given.
pub const LOOP_TEMPLATE: &'static str = r#"#{prelude}
use std::io::prelude::*;

fn main() {
    let mut closure = enforce_closure({#{script}});
    let mut out_buffer: Vec<u8> = vec![];
    let mut line_buffer = String::new();
    let mut stdin = std::io::stdin();
    loop {
        line_buffer.clear();
        let read_res = stdin.read_line(&mut line_buffer).unwrap_or(0);
        if read_res == 0 { break }
        let output = closure(&line_buffer);

        out_buffer.clear();
        write!(&mut out_buffer, "{:?}", output).unwrap();
        let out_str = String::from_utf8_lossy(&out_buffer);
        if &*out_str != "()" {
            println!("{}", out_str);
        }
    }
}

fn enforce_closure<F, T>(closure: F) -> F
where F: FnMut(&str) -> T {
    closure
}
"#;

/// The template used for `--count --loop` input.
pub const LOOP_COUNT_TEMPLATE: &'static str = r#"#{prelude}
use std::io::prelude::*;

fn main() {
    let mut closure = enforce_closure({#{script}});
    let mut out_buffer: Vec<u8> = vec![];
    let mut line_buffer = String::new();
    let mut stdin = std::io::stdin();
    let mut count = 0;
    loop {
        line_buffer.clear();
        let read_res = stdin.read_line(&mut line_buffer).unwrap_or(0);
        if read_res == 0 { break }
        count += 1;
        let output = closure(&line_buffer, count);

        out_buffer.clear();
        write!(&mut out_buffer, "{:?}", output).unwrap();
        let out_str = String::from_utf8_lossy(&out_buffer);
        if &*out_str != "()" {
            println!("{}", out_str);
        }
    }
}

fn enforce_closure<F, T>(closure: F) -> F
where F: FnMut(&str, usize) -> T {
    closure
}
"#;

/// The default manifest used for packages: `#{name}` is the package name,
/// `#{bin_name}` the name of the binary and `#{file}` the "safe name" of the
/// input, which names the source file.
pub const DEFAULT_MANIFEST: &'static str = "\n[package]\nname = \"#{name}\"\nversion = \"0.1.0\"\nauthors = [\"Anonymous\"]\nedition = \"2021\"\n\n[[bin]]\nname = \"#{bin_name}\"\npath = \"#{file}.rs\"\n\n[profile.release]\nstrip = true\n";

/// The name of the package metadata file.
pub const METADATA_FILE: &'static str = "metadata.json";

/// When generating a package's unique ID, how many hex nibbles of the
/// compressed path should be used *at most*?
pub const DEFLATE_PATH_LEN_MAX: usize = 20;

/// When generating a package's unique ID, how many hex nibbles of the script
/// digest should be used *at most*?
pub const CONTENT_DIGEST_LEN_MAX: usize = 20;

/// How old can stuff in the cache be before we automatically clear it out?
/// Measured in milliseconds: one week.
pub const MAX_CACHE_AGE_MS: u64 = 604800000;

} // verus!
