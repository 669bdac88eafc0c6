use rust_script::comments::extract_comment;
use rust_script::input::Input;
use rust_script::manifest::{find_embedded_manifest, strip_shebang, Manifest};
use rust_script::markdown::scrape_markdown_manifest;
use rust_script::package::split_input;

const STRIP_SECTION: &str = r##"

[profile.release]
strip = true
"##;

fn si(i: &Input) -> Option<(String, String)> {
    split_input(i, &vec![], &vec![], "input_id").ok()
}

fn f(c: &str) -> Input {
    Input::File("n".to_string(), "p".to_string(), c.to_string(), "p".to_string())
}

fn r(m: String, s: &str) -> Option<(String, String)> {
    Some((m, s.to_string()))
}

#[test]
fn test_split_input() {
    assert_eq!(
        si(&f(r#"fn main() {}"#)),
        r(
            format!(
                "{}{}",
                r#"[[bin]]
name = "n_input_id"
path = "n.rs"

[dependencies]

[package]
authors = ["Anonymous"]
edition = "2021"
name = "n"
version = "0.1.0""#,
                STRIP_SECTION
            ),
            r#"fn main() {}"#
        )
    );

    // Ensure removed prefix manifests don't work.
    assert_eq!(
        si(&f(r#"
---
fn main() {}
"#)),
        r(
            format!(
                "{}{}",
                r#"[[bin]]
name = "n_input_id"
path = "n.rs"

[dependencies]

[package]
authors = ["Anonymous"]
edition = "2021"
name = "n"
version = "0.1.0""#,
                STRIP_SECTION
            ),
            r#"
---
fn main() {}
"#
        )
    );

    assert_eq!(
        si(&f(r#"[dependencies]
time="0.1.25"
---
fn main() {}
"#)),
        r(
            format!(
                "{}{}",
                r#"[[bin]]
name = "n_input_id"
path = "n.rs"

[dependencies]

[package]
authors = ["Anonymous"]
edition = "2021"
name = "n"
version = "0.1.0""#,
                STRIP_SECTION
            ),
            r#"[dependencies]
time="0.1.25"
---
fn main() {}
"#
        )
    );

    assert_eq!(
        si(&f(r#"
// Cargo-Deps: time="0.1.25"
fn main() {}
"#)),
        r(
            format!(
                "{}{}",
                r#"[[bin]]
name = "n_input_id"
path = "n.rs"

[dependencies]
time = "0.1.25"

[package]
authors = ["Anonymous"]
edition = "2021"
name = "n"
version = "0.1.0""#,
                STRIP_SECTION
            ),
            r#"
// Cargo-Deps: time="0.1.25"
fn main() {}
"#
        )
    );

    assert_eq!(
        si(&f(r#"
// Cargo-Deps: time="0.1.25", libc="0.2.5"
fn main() {}
"#)),
        r(
            format!(
                "{}{}",
                r#"[[bin]]
name = "n_input_id"
path = "n.rs"

[dependencies]
libc = "0.2.5"
time = "0.1.25"

[package]
authors = ["Anonymous"]
edition = "2021"
name = "n"
version = "0.1.0""#,
                STRIP_SECTION
            ),
            r#"
// Cargo-Deps: time="0.1.25", libc="0.2.5"
fn main() {}
"#
        )
    );

    assert_eq!(
        si(&f(r#"
/*!
Here is a manifest:

```cargo
[dependencies]
time = "0.1.25"
```
*/
fn main() {}
"#)),
        r(
            format!(
                "{}{}",
                r#"[[bin]]
name = "n_input_id"
path = "n.rs"

[dependencies]
time = "0.1.25"

[package]
authors = ["Anonymous"]
edition = "2021"
name = "n"
version = "0.1.0""#,
                STRIP_SECTION
            ),
            r#"
/*!
Here is a manifest:

```cargo
[dependencies]
time = "0.1.25"
```
*/
fn main() {}
"#
        )
    );
}

#[test]
fn test_strip_shebang() {
    assert_eq!(
        strip_shebang(
            "\
#!/usr/bin/env rust-script
and the rest
\
        "
        ),
        "\
and the rest
\
        "
    );
    assert_eq!(
        strip_shebang(
            "\
#![thingy]
and the rest
\
        "
        ),
        "\
#![thingy]
and the rest
\
        "
    );
}

#[test]
fn test_find_embedded_manifest() {
    let fem = find_embedded_manifest;

    assert_eq!(fem("fn main() {}"), None);

    assert_eq!(
        fem("
fn main() {}
"),
        None
    );

    // Ensure removed prefix manifests don't work.
    assert_eq!(
        fem(r#"
---
fn main() {}
"#),
        None
    );

    assert_eq!(
        fem("[dependencies]
time = \"0.1.25\"
---
fn main() {}
"),
        None
    );

    assert_eq!(
        fem("[dependencies]
time = \"0.1.25\"

fn main() {}
"),
        None
    );

    // Make sure we aren't just grabbing the *last* line.
    assert_eq!(
        fem("[dependencies]
time = \"0.1.25\"

fn main() {
    println!(\"Hi!\");
}
"),
        None
    );

    assert_eq!(
        fem("// cargo-deps: time=\"0.1.25\"
fn main() {}
"),
        Some((
            Manifest::DepList(" time=\"0.1.25\""),
            "// cargo-deps: time=\"0.1.25\"
fn main() {}
"
        ))
    );

    assert_eq!(
        fem("// cargo-deps: time=\"0.1.25\", libc=\"0.2.5\"
fn main() {}
"),
        Some((
            Manifest::DepList(" time=\"0.1.25\", libc=\"0.2.5\""),
            "// cargo-deps: time=\"0.1.25\", libc=\"0.2.5\"
fn main() {}
"
        ))
    );

    assert_eq!(
        fem("
  // cargo-deps: time=\"0.1.25\"  \n\
fn main() {}
"),
        Some((
            Manifest::DepList(" time=\"0.1.25\"  "),
            "
  // cargo-deps: time=\"0.1.25\"  \n\
fn main() {}
"
        ))
    );

    assert_eq!(
        fem("/* cargo-deps: time=\"0.1.25\" */
fn main() {}
"),
        None
    );

    assert_eq!(
        fem(r#"//! [dependencies]
//! time = "0.1.25"
fn main() {}
"#),
        None
    );

    assert_eq!(
        fem(r#"//! ```Cargo
//! [dependencies]
//! time = "0.1.25"
//! ```
fn main() {}
"#),
        Some((
            Manifest::TomlOwned(
                r#"[dependencies]
time = "0.1.25"
"#
                .into()
            ),
            r#"//! ```Cargo
//! [dependencies]
//! time = "0.1.25"
//! ```
fn main() {}
"#
        ))
    );

    assert_eq!(
        fem(r#"/*!
[dependencies]
time = "0.1.25"
*/
fn main() {}
"#),
        None
    );

    assert_eq!(
        fem(r#"/*!
```Cargo
[dependencies]
time = "0.1.25"
```
*/
fn main() {}
"#),
        Some((
            Manifest::TomlOwned(
                r#"[dependencies]
time = "0.1.25"
"#
                .into()
            ),
            r#"/*!
```Cargo
[dependencies]
time = "0.1.25"
```
*/
fn main() {}
"#
        ))
    );

    assert_eq!(
        fem(r#"/*!
 * [dependencies]
 * time = "0.1.25"
 */
fn main() {}
"#),
        None
    );

    assert_eq!(
        fem(r#"/*!
 * ```Cargo
 * [dependencies]
 * time = "0.1.25"
 * ```
 */
fn main() {}
"#),
        Some((
            Manifest::TomlOwned(
                r#"[dependencies]
time = "0.1.25"
"#
                .into()
            ),
            r#"/*!
 * ```Cargo
 * [dependencies]
 * time = "0.1.25"
 * ```
 */
fn main() {}
"#
        ))
    );
}

#[test]
fn test_scrape_markdown_manifest() {
    let smm = scrape_markdown_manifest;

    assert_eq!(
        smm(r#"There is no manifest in this comment.
"#),
        None
    );

    assert_eq!(
        smm(r#"There is no manifest in this comment.

```
This is not a manifest.
```

```rust
println!("Nor is this.");
```

    Or this.
"#),
        None
    );

    assert_eq!(
        smm(r#"This is a manifest:

```cargo
dependencies = { time = "*" }
```
"#),
        Some(
            r#"dependencies = { time = "*" }
"#
            .into()
        )
    );

    assert_eq!(
        smm(r#"This is *not* a manifest:

```
He's lying, I'm *totally* a manifest!
```

This *is*:

```cargo
dependencies = { time = "*" }
```
"#),
        Some(
            r#"dependencies = { time = "*" }
"#
            .into()
        )
    );

    assert_eq!(
        smm(r#"This is a manifest:

```cargo
dependencies = { time = "*" }
```

So is this, but it doesn't count:

```cargo
dependencies = { explode = true }
```
"#),
        Some(
            r#"dependencies = { time = "*" }
"#
            .into()
        )
    );
}

fn ec(s: &str) -> Result<String, String> {
    extract_comment(s).map_err(|e| e.message())
}

#[test]
fn test_extract_comment() {
    assert_eq!(ec(r#"fn main () {}"#), Err("no doc comment found".into()));

    assert_eq!(
        ec(r#"/*!
Here is a manifest:

```cargo
[dependencies]
time = "*"
```
*/
fn main() {}
"#),
        Ok(r#"
Here is a manifest:

```cargo
[dependencies]
time = "*"
```

"#
        .into())
    );

    assert_eq!(
        ec(r#"/*!
 * Here is a manifest:
 *
 * ```cargo
 * [dependencies]
 * time = "*"
 * ```
 */
fn main() {}
"#),
        Ok(r#"
Here is a manifest:

```cargo
[dependencies]
time = "*"
```

"#
        .into())
    );

    assert_eq!(
        ec(r#"//! Here is a manifest:
//!
//! ```cargo
//! [dependencies]
//! time = "*"
//! ```
fn main() {}
"#),
        Ok(r#"Here is a manifest:

```cargo
[dependencies]
time = "*"
```
"#
        .into())
    );
}

#[test]
fn test_package_name() {
    let input = Input::File(
        "Script".to_string(),
        "path".to_string(),
        "script".to_string(),
        "path".to_string(),
    );
    assert_eq!("script", input.package_name());
    let input = Input::File(
        "1Script".to_string(),
        "path".to_string(),
        "script".to_string(),
        "path".to_string(),
    );
    assert_eq!("_1script", input.package_name());
}
