//! Splitting an input into the manifest and the source of its Cargo package.
use vstd::prelude::*;
use crate::consts;
use crate::patterns::ident_run_end;
use crate::error::MainError;
use crate::fix_paths::{fix_manifest_paths, fix_paths_spec};
use crate::input::{deps_view, package_name_of, safe_name_spec, Input};
use crate::manifest::{
    deps_manifest, deps_text, embedded_manifest_spec, find_embedded_manifest, into_toml_spec,
    parse_entries, parse_toml_table, strip_shebang, strip_shebang_spec, Manifest, ManifestView,
};
use crate::merge::{merge_manifest, merge_spec};
use crate::templates::{expand, expand_spec, get_template, is_placeholder_name, unknown_sub_message};
use crate::text::{
    chars_of, is_white_space, lemma_find_char, lemma_lines_shift, lemma_skip_ws, lines_from,
    lines_of, next_line, occurs_at, occurs_at_exec, push_range, strip_cr, find_char, find_char_exec,
    push_str, skip_ws, skip_ws_exec, string_of,
};
use crate::toml_model::{
    keys_sorted, table_entries, toml_render, toml_render_table, toml_ser_error_text, TomlModel,
};

verus! {

/// Does `line` hold `fn main` at `i`, then white space and `(`?
pub open spec fn main_decl_at(line: Seq<char>, i: int) -> bool {
    &&& occurs_at(line, i, "fn main"@)
    &&& skip_ws(line, i + 7) < line.len()
    &&& line[skip_ws(line, i + 7)] == '('
}

/// Where a foreign ABI qualifier that starts at `i` ends: the keyword that
/// gives a function another ABI, a space, the ABI's name in double quotes
/// (such as `"C"`) and a space.
pub open spec fn abi_end(line: Seq<char>, i: int) -> Option<int> {
    let w = ident_run_end(line, i);
    if 0 <= i < w && w + 1 < line.len() && line[w] == ' ' && line[w + 1] == '"' {
        let q = find_char(line, '"', w + 2);
        if q + 1 < line.len() && line[q + 1] == ' ' {
            Some(q + 2)
        } else {
            None
        }
    } else {
        None
    }
}

/// Does `line` declare `main` at `k`, with or without a foreign ABI
/// qualifier before `fn`?
pub open spec fn main_after(line: Seq<char>, k: int) -> bool {
    ||| main_decl_at(line, k)
    ||| abi_end(line, k) matches Some(j) && main_decl_at(line, j)
}

/// Does the line declare a `main` function: after optional white space, an
/// optional `pub`, an optional `async`, an optional foreign ABI qualifier,
/// then `fn main` and, after optional white space, `(`?
pub open spec fn contains_main_method(line: Seq<char>) -> bool {
    let i = skip_ws(line, 0);
    ||| main_after(line, i)
    ||| occurs_at(line, i, "pub "@) && main_after(line, i + 4)
    ||| occurs_at(line, i, "async "@) && main_after(line, i + 6)
    ||| occurs_at(line, i, "pub async "@) && main_after(line, i + 10)
}

/// Does some line of the source declare a `main` function?
pub open spec fn has_main(src: Seq<char>) -> bool {
    exists|k: int| 0 <= k < lines_of(src).len() && contains_main_method(#[trigger] lines_of(src)[k])
}

/// The text put before a script that has no `main` function.
pub open spec fn main_prefix() -> Seq<char> {
    "fn main() -> Result<(), Box<dyn std::error::Error+Sync+Send>> {\n    {\n    "@
}

/// The text put after a script that has no `main` function.
pub open spec fn main_suffix() -> Seq<char> {
    "    }\n    Ok(())\n}"@
}

/// The source of a script file, its shebang line removed: itself when it
/// declares `main` (with an empty line where the shebang was, so that line
/// numbers stay as in the file), else wrapped in a `main` function that
/// returns a `Result`.
pub open spec fn file_source(content: Seq<char>) -> Seq<char> {
    let src = strip_shebang_spec(content);
    if has_main(src) {
        if src.len() < content.len() {
            "\n"@ + src
        } else {
            src
        }
    } else {
        main_prefix() + src + main_suffix()
    }
}

/// The prelude text: each item followed by a line end.
pub open spec fn prelude_text(items: Seq<Seq<char>>) -> Seq<char>
    decreases items.len(),
{
    if items.len() == 0 {
        Seq::empty()
    } else {
        prelude_text(items.drop_last()) + items.last() + "\n"@
    }
}

/// Why splitting an input fails.
pub enum SplitError {
    /// The template names a placeholder that has no value.
    Template(Seq<char>),
    /// The embedded manifest does not parse.
    EmbeddedManifest,
    /// The default manifest does not parse.
    DefaultManifest,
    /// The dependency manifest does not parse.
    DependencyManifest,
    /// A table of one manifest meets a non-table of the other.
    Merge,
    /// The merged manifest cannot be written as TOML.
    Render,
}

/// Is `e` the error for `se`?
pub open spec fn split_error_is(e: MainError, se: SplitError) -> bool {
    match se {
        SplitError::Template(name) => e matches MainError::OtherOwned(m) && m@ == unknown_sub_message(
            name,
        ),
        SplitError::EmbeddedManifest => e matches MainError::Tag(t, _) && t@
            == "could not parse embedded manifest"@,
        SplitError::DefaultManifest => e matches MainError::Tag(t, _) && t@
            == "could not parse default manifest"@,
        SplitError::DependencyManifest => e matches MainError::Tag(t, _) && t@
            == "could not parse dependency manifest"@,
        SplitError::Merge => e == MainError::OtherBorrowed(
            "cannot merge manifests: cannot merge table and non-table values",
        ),
        SplitError::Render => e is Other,
    }
}

/// The substitutions of the default manifest for an input with the given ID.
pub open spec fn default_subs(input: Input, input_id: Seq<char>) -> Seq<(Seq<char>, Seq<char>)> {
    let pkg = package_name_of(safe_name_spec(input));
    seq![
        ("name"@, pkg),
        ("bin_name"@, pkg + "_"@ + input_id),
        ("file"@, safe_name_spec(input)),
    ]
}

/// The default manifest of an input: `DEFAULT_MANIFEST` with the package
/// name, the binary name (package name, `_`, input ID) and the safe name.
pub open spec fn default_manifest_spec(input: Input, input_id: Seq<char>) -> Result<
    Seq<(Seq<char>, TomlModel)>,
    SplitError,
> {
    match expand_spec(consts::DEFAULT_MANIFEST@, default_subs(input, input_id)) {
        Err(n) => Err(SplitError::Template(n)),
        Ok(text) => match parse_entries(text) {
            Some(es) => Ok(es),
            None => Err(SplitError::DefaultManifest),
        },
    }
}

/// The embedded manifest of `s`, or an empty TOML manifest.
pub open spec fn manifest_or_empty(s: Seq<char>) -> ManifestView {
    match embedded_manifest_spec(s) {
        Some(m) => m,
        None => ManifestView::Toml(Seq::empty()),
    }
}

/// The name of the template for an input.
pub open spec fn template_for(input: Input) -> Seq<char> {
    match input {
        Input::File(..) => consts::FILE_TEMPLATE@,
        Input::Expr(..) => consts::EXPR_TEMPLATE@,
        Input::Loop(_, count, _) => if count {
            consts::LOOP_COUNT_TEMPLATE@
        } else {
            consts::LOOP_TEMPLATE@
        },
    }
}

/// The embedded manifest and the script source of an input.
pub open spec fn manifest_and_source(input: Input) -> (ManifestView, Seq<char>) {
    match input {
        Input::File(_, _, content, _) => {
            let c = strip_shebang_spec(content@);
            (manifest_or_empty(c), file_source(content@))
        },
        Input::Expr(content, _) => (manifest_or_empty(template_for(input)), content@),
        Input::Loop(content, _, _) => (manifest_or_empty(template_for(input)), content@),
    }
}

/// The substitutions of the template for an input.
pub open spec fn template_subs(input: Input, source: Seq<char>, prelude: Seq<Seq<char>>) -> Seq<
    (Seq<char>, Seq<char>),
> {
    match input {
        Input::File(..) => seq![("script"@, source)],
        _ => seq![("script"@, source), ("prelude"@, prelude_text(prelude))],
    }
}

/// The complete manifest and the source of the package of an input: the
/// script source expanded into its template; the default manifest, merged
/// with the embedded manifest, merged with the dependency manifest, its
/// relative paths made absolute against the input's base path, written out.
pub open spec fn split_input_spec(
    input: Input,
    deps: Seq<(Seq<char>, Seq<char>)>,
    prelude: Seq<Seq<char>>,
    input_id: Seq<char>,
) -> Result<(Seq<char>, Seq<char>), SplitError> {
    let (part, source) = manifest_and_source(input);
    match expand_spec(template_for(input), template_subs(input, source, prelude)) {
        Err(n) => Err(SplitError::Template(n)),
        Ok(src) => match into_toml_spec(part) {
            None => Err(SplitError::EmbeddedManifest),
            Some(pm) => match default_manifest_spec(input, input_id) {
                Err(e) => Err(e),
                Ok(dm) => match parse_entries(deps_text(deps)) {
                    None => Err(SplitError::DependencyManifest),
                    Some(dp) => match merge_spec(dm, pm) {
                        None => Err(SplitError::Merge),
                        Some(m1) => match merge_spec(m1, dp) {
                            None => Err(SplitError::Merge),
                            Some(m2) => {
                                let base = match input {
                                    Input::File(_, _, _, b) => b@,
                                    Input::Expr(_, b) => b@,
                                    Input::Loop(_, _, b) => b@,
                                };
                                match toml_render(fix_paths_spec(TomlModel::Table(m2), base)) {
                                    None => Err(SplitError::Render),
                                    Some(text) => Ok((text, src)),
                                }
                            },
                        },
                    },
                },
            },
        },
    }
}

/// Every script package declares `main`: a script that has none is wrapped
/// in one.
pub proof fn law_file_source_has_main(content: Seq<char>)
    ensures
        has_main(file_source(content)),
{
    let src = strip_shebang_spec(content);
    let out = file_source(content);
    if has_main(src) {
        if src.len() < content.len() {
            reveal_strlit("\n");
            let pre = "\n"@;
            lemma_lines_shift(pre, src, 0);
            lemma_find_char(out, '\n', 0);
            assert(out[0] == '\n');
            assert(lines_of(out) == seq![strip_cr(out.subrange(0, 0))] + lines_from(out, 1));
            assert(lines_from(out, 1) == lines_of(src));
            let k = choose|k: int|
                0 <= k < lines_of(src).len() && contains_main_method(#[trigger] lines_of(src)[k]);
            assert(lines_of(out)[k + 1] == lines_of(src)[k]);
        }
    } else {
        reveal_strlit("fn main() -> Result<(), Box<dyn std::error::Error+Sync+Send>> {\n    {\n    ");
        reveal_strlit("fn main");
        let p = main_prefix();
        assert(out == p + src + main_suffix());
        let n = 63int;
        assert(p[n] == '\n');
        assert(out[n] == '\n');
        lemma_find_char(out, '\n', 0);
        let j = find_char(out, '\n', 0);
        assert forall|k: int| 0 <= k < 9 implies out[k] != '\n' by {
            assert(out[k] == p[k]);
        }
        assert(j >= 9) by {
            if j < 9 {
                assert(out[j] == p[j]);
            }
        }
        assert(j <= n);
        assert(out[j - 1] == p[j - 1]);
        assert(out[j - 1] != '\r');
        let line = out.subrange(0, j);
        assert(strip_cr(line) == line);
        assert(lines_of(out)[0] == line);
        assert(line.subrange(0, 7) =~= "fn main"@);
        assert(line[7] == '(');
        assert(!is_white_space(line[0]));
        assert(skip_ws(line, 0) == 0);
        assert(!is_white_space(line[7]));
        assert(skip_ws(line, 7) == 7);
        assert(main_decl_at(line, 0));
        assert(main_after(line, 0));
        assert(contains_main_method(lines_of(out)[0]));
    }
}

/// A script file goes into its package as it is: its template adds nothing
/// around the source (which is the file without its shebang line, wrapped
/// in `main` where it has none).
pub proof fn law_file_package_source(
    input: Input,
    deps: Seq<(Seq<char>, Seq<char>)>,
    prelude: Seq<Seq<char>>,
    input_id: Seq<char>,
)
    ensures
        input matches Input::File(_, _, content, _) ==> (split_input_spec(
            input,
            deps,
            prelude,
            input_id,
        ) matches Ok((_, src)) ==> src == file_source(content@)),
{
    if let Input::File(_, _, content, _) = input {
        reveal_strlit("#{script}");
        reveal_strlit("#{");
        reveal_strlit("}");
        reveal_strlit("script");
        let n = "script"@;
        assert(is_placeholder_name(n));
        assert(consts::FILE_TEMPLATE@ =~= "#{"@ + n + "}"@);
        crate::templates::law_value_put_in_verbatim(n, file_source(content@));
    }
}

fn main_decl_at_exec(line: &Vec<char>, i: usize) -> (r: bool)
    requires
        i <= line@.len(),
    ensures
        r == main_decl_at(line@, i as int),
{
    proof {
        reveal_strlit("fn main");
    }
    assert("fn main"@.len() == 7);
    if !occurs_at_exec(line, i, "fn main") {
        return false;
    }
    let n = line.len();
    proof {
        lemma_skip_ws(line@, i + 7);
    }
    let j = skip_ws_exec(line, i + 7);
    j < n && line[j] == '('
}

fn abi_end_exec(line: &Vec<char>, i: usize) -> (r: Option<usize>)
    requires
        i <= line@.len(),
    ensures
        match abi_end(line@, i as int) {
            Some(j) => r matches Some(x) && x as int == j && j <= line@.len(),
            None => r is None,
        },
{
    let n = line.len();
    let mut w = i;
    proof {
        crate::templates::lemma_ident_run_end(line@, i as int);
    }
    while w < n && (('a' <= line[w] && line[w] <= 'z') || ('A' <= line[w] && line[w] <= 'Z')
        || line[w] == '_' || ('0' <= line[w] && line[w] <= '9'))
        invariant
            n == line@.len(),
            i <= w <= n,
            ident_run_end(line@, i as int) == ident_run_end(line@, w as int),
        decreases n - w,
    {
        w = w + 1;
    }
    if !(i < w && 1 < n - w && line[w] == ' ' && line[w + 1] == '"') {
        return None;
    }
    let q = find_char_exec(line, '"', w + 2);
    proof {
        lemma_find_char(line@, '"', w + 2);
    }
    if 1 < n - q && line[q + 1] == ' ' {
        Some(q + 2)
    } else {
        None
    }
}

fn main_after_exec(line: &Vec<char>, k: usize) -> (r: bool)
    requires
        k <= line@.len(),
    ensures
        r == main_after(line@, k as int),
{
    if main_decl_at_exec(line, k) {
        return true;
    }
    match abi_end_exec(line, k) {
        Some(j) => main_decl_at_exec(line, j),
        None => false,
    }
}

fn contains_main_method_exec(line: &Vec<char>) -> (r: bool)
    ensures
        r == contains_main_method(line@),
{
    let i = skip_ws_exec(line, 0);
    proof {
        lemma_skip_ws(line@, 0);
        reveal_strlit("pub ");
        reveal_strlit("async ");
        reveal_strlit("pub async ");
    }
    assert("pub "@.len() == 4 && "async "@.len() == 6 && "pub async "@.len() == 10);
    let n = line.len();
    if main_after_exec(line, i) {
        return true;
    }
    if 4 <= n - i && occurs_at_exec(line, i, "pub ") && main_after_exec(line, i + 4) {
        return true;
    }
    if 6 <= n - i && occurs_at_exec(line, i, "async ") && main_after_exec(line, i + 6) {
        return true;
    }
    10 <= n - i && occurs_at_exec(line, i, "pub async ") && main_after_exec(line, i + 10)
}

fn has_main_exec(src: &Vec<char>) -> (r: bool)
    ensures
        r == has_main(src@),
{
    let mut i: usize = 0;
    let ghost all = lines_of(src@);
    while i < src.len()
        invariant
            i <= src@.len(),
            all == lines_of(src@),
            all.len() >= lines_from(src@, i as int).len(),
            all.skip(all.len() - lines_from(src@, i as int).len()) == lines_from(src@, i as int),
            forall|k: int|
                0 <= k < all.len() - lines_from(src@, i as int).len() ==> !contains_main_method(
                    #[trigger] all[k],
                ),
        decreases src@.len() - i,
    {
        let (ls, le, next) = next_line(src, i);
        let ghost here = lines_from(src@, i as int);
        let ghost off = all.len() - here.len();
        let mut line: Vec<char> = Vec::new();
        push_range(&mut line, src, ls, le);
        assert(line@ =~= here[0]);
        assert(all[off] == here[0]) by {
            assert(all.skip(off)[0] == all[off]);
        }
        if contains_main_method_exec(&line) {
            return true;
        }
        assert(all.skip(off).drop_first() =~= all.skip(off + 1));
        assert(here.drop_first() == lines_from(src@, next as int));
        i = next;
    }
    assert(lines_from(src@, i as int).len() == 0);
    false
}

fn file_source_exec(content: &str) -> (r: String)
    ensures
        r@ == file_source(content@),
{
    let src = strip_shebang(content);
    let sv = chars_of(src);
    if has_main_exec(&sv) {
        if src.unicode_len() < content.unicode_len() {
            let mut v: Vec<char> = Vec::new();
            push_str(&mut v, "\n");
            push_str(&mut v, src);
            proof {
                reveal_strlit("\n");
            }
            string_of(v.as_slice())
        } else {
            src.to_owned()
        }
    } else {
        let mut v: Vec<char> = Vec::new();
        push_str(&mut v, "fn main() -> Result<(), Box<dyn std::error::Error+Sync+Send>> {\n    {\n    ");
        push_str(&mut v, src);
        push_str(&mut v, "    }\n    Ok(())\n}");
        string_of(v.as_slice())
    }
}

fn prelude_text_exec(items: &Vec<String>) -> (r: String)
    ensures
        r@ == prelude_text(items@.map_values(|s: String| s@)),
{
    let ghost iv = items@.map_values(|s: String| s@);
    let mut v: Vec<char> = Vec::new();
    let mut i: usize = 0;
    assert(iv.take(0) =~= Seq::<Seq<char>>::empty());
    while i < items.len()
        invariant
            iv == items@.map_values(|s: String| s@),
            i <= items@.len(),
            v@ == prelude_text(iv.take(i as int)),
        decreases items@.len() - i,
    {
        let ghost v0 = v@;
        push_str(&mut v, items[i].as_str());
        push_str(&mut v, "\n");
        assert(iv.take(i + 1).drop_last() =~= iv.take(i as int));
        assert(v@ =~= v0 + items@[i as int]@ + "\n"@);
        i = i + 1;
    }
    assert(iv.take(i as int) =~= iv);
    string_of(v.as_slice())
}

/// The default Cargo manifest for an input with the given ID.
pub fn default_manifest(input: &Input, input_id: &str) -> (r: Result<
    toml::map::Map<String, toml::Value>,
    MainError,
>)
    ensures
        match default_manifest_spec(*input, input_id@) {
            Ok(es) => r matches Ok(t) && table_entries(t) == es && keys_sorted(es),
            Err(se) => r matches Err(e) && split_error_is(e, se),
        },
{
    let pkg_name = input.package_name();
    let mut bin: Vec<char> = chars_of(pkg_name.as_str());
    push_str(&mut bin, "_");
    push_str(&mut bin, input_id);
    let bin_name = string_of(bin.as_slice());
    let subs = vec![
        (consts::MANI_NAME_SUB, pkg_name.as_str()),
        (consts::MANI_BIN_NAME_SUB, bin_name.as_str()),
        (consts::MANI_FILE_SUB, input.safe_name()),
    ];
    assert(crate::templates::subs_view(subs@) =~= default_subs(*input, input_id@));
    let text = expand(consts::DEFAULT_MANIFEST, &subs)?;
    match parse_toml_table(text.as_str()) {
        Ok(t) => Ok(t),
        Err(e) => {
            let msg = crate::toml_model::toml_de_error_text(&e);
            Err(MainError::Tag("could not parse default manifest".to_owned(), Box::new(MainError::Other(msg))))
        },
    }
}

/// The embedded manifest (or an empty one), the script source and the
/// template of an input.
fn prepare<'a>(input: &'a Input) -> (r: (Manifest<'a>, String, &'static str))
    ensures
        r.0@ == manifest_and_source(*input).0,
        r.1@ == manifest_and_source(*input).1,
        r.2@ == template_for(*input),
{
    proof {
        reveal_strlit("");
        reveal_strlit("file");
        reveal_strlit("expr");
        reveal_strlit("loop");
        reveal_strlit("loop-count");
    }
    assert(""@ =~= Seq::<char>::empty());
    assert("file"@[0] != "expr"@[0]);
    assert("loop"@[0] != "expr"@[0]);
    assert("loop"@[0] != "file"@[0]);
    assert("loop-count"@.len() != "expr"@.len());
    assert("loop-count"@.len() != "file"@.len());
    assert("loop-count"@.len() != "loop"@.len());
    assert(crate::templates::builtin_template_spec("file"@) == Some(consts::FILE_TEMPLATE));
    assert(crate::templates::builtin_template_spec("expr"@) == Some(consts::EXPR_TEMPLATE));
    assert(crate::templates::builtin_template_spec("loop"@) == Some(consts::LOOP_TEMPLATE));
    assert(crate::templates::builtin_template_spec("loop-count"@) == Some(consts::LOOP_COUNT_TEMPLATE));
    match input {
        Input::File(_, _, content, _) => {
            let stripped = strip_shebang(content.as_str());
            let source = file_source_exec(content.as_str());
            let template = match get_template("file") {
                Ok(t) => t,
                Err(_) => consts::FILE_TEMPLATE,
            };
            let m = match find_embedded_manifest(stripped) {
                Some((m, _)) => m,
                None => Manifest::Toml(""),
            };
            assert(m@ == manifest_or_empty(stripped@));
            (m, source, template)
        },
        Input::Expr(content, _) => {
            let template = match get_template("expr") {
                Ok(t) => t,
                Err(_) => consts::EXPR_TEMPLATE,
            };
            let m = match find_embedded_manifest(template) {
                Some((m, _)) => m,
                None => Manifest::Toml(""),
            };
            (m, content.clone(), template)
        },
        Input::Loop(content, count, _) => {
            let template = if *count {
                match get_template("loop-count") {
                    Ok(t) => t,
                    Err(_) => consts::LOOP_COUNT_TEMPLATE,
                }
            } else {
                match get_template("loop") {
                    Ok(t) => t,
                    Err(_) => consts::LOOP_TEMPLATE,
                }
            };
            let m = match find_embedded_manifest(template) {
                Some((m, _)) => m,
                None => Manifest::Toml(""),
            };
            (m, content.clone(), template)
        },
    }
}

/// Splits an input into a complete Cargo manifest and the Rust source of its
/// package. A script file gets no prelude.
#[verifier::rlimit(40)]
pub fn split_input(
    input: &Input,
    deps: &Vec<(String, String)>,
    prelude_items: &Vec<String>,
    input_id: &str,
) -> (r: Result<(String, String), MainError>)
    requires
        input is File ==> prelude_items@.len() == 0,
    ensures
        match split_input_spec(
            *input,
            deps_view(deps@),
            prelude_items@.map_values(|s: String| s@),
            input_id@,
        ) {
            Ok((m, src)) => r matches Ok((a, b)) && a@ == m && b@ == src,
            Err(se) => r matches Err(e) && split_error_is(e, se),
        },
{
    let (part_mani, source, template) = prepare(input);
    let sub_prelude = match input {
        Input::File(..) => false,
        _ => true,
    };
    let prelude_str = prelude_text_exec(prelude_items);
    let subs = if sub_prelude {
        vec![(consts::SCRIPT_BODY_SUB, source.as_str()), (consts::SCRIPT_PRELUDE_SUB, prelude_str.as_str())]
    } else {
        vec![(consts::SCRIPT_BODY_SUB, source.as_str())]
    };
    assert(crate::templates::subs_view(subs@) =~= template_subs(
        *input,
        source@,
        prelude_items@.map_values(|s: String| s@),
    ));
    let expanded = expand(template, &subs)?;
    let part = part_mani.into_toml()?;
    let def_mani = default_manifest(input, input_id)?;
    let dep_mani = deps_manifest(deps)?;
    let mani = merge_manifest(def_mani, part)?;
    let mani = merge_manifest(mani, dep_mani)?;
    let base = input.base_path();
    let fixed = fix_manifest_paths(mani, base.as_str());
    match toml_render_table(&fixed) {
        Ok(text) => Ok((text, expanded)),
        Err(e) => Err(MainError::Other(toml_ser_error_text(&e))),
    }
}

} // verus!
