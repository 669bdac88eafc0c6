//! Finding the manifest embedded in a script, and building the package
//! manifest and source from the input.
use vstd::prelude::*;
use crate::comments::{extract_comment, extract_comment_spec};
use crate::error::MainError;
use crate::markdown::{markdown_events, scrape_from, scrape_markdown_manifest};
use crate::patterns::{
    crate_comment_match, regex_find, regex_short_manifest_group, shebang_match,
    short_manifest_group, RE_CRATE_COMMENT, RE_SHEBANG,
};
use crate::text::{
    chars_of, find_char, find_char_exec, lemma_find_char, lemma_skip_ws, push_range, push_str,
    skip_ws, split_spec, string_of, trim_chars, trim_spec,
};
use crate::toml_model::{
    keys_sorted, table_entries, toml_de_error_text, toml_parse, toml_parse_table, TomlModel,
};

verus! {

/// The kind, and content, of an embedded manifest.
#[derive(Debug, PartialEq, Eq)]
pub enum Manifest<'s> {
    /// The manifest is a TOML fragment.
    Toml(&'s str),
    /// The manifest is a TOML fragment (owned).
    TomlOwned(String),
    /// The manifest is a comma-delimited list of dependencies.
    DepList(&'s str),
}

/// A manifest with its text taken as a character sequence.
pub enum ManifestView {
    Toml(Seq<char>),
    TomlOwned(Seq<char>),
    DepList(Seq<char>),
}

impl<'s> View for Manifest<'s> {
    type V = ManifestView;

    open spec fn view(&self) -> ManifestView {
        match self {
            Manifest::Toml(s) => ManifestView::Toml(s@),
            Manifest::TomlOwned(s) => ManifestView::TomlOwned(s@),
            Manifest::DepList(s) => ManifestView::DepList(s@),
        }
    }
}

/// `s` without its leading shebang line, if it has one.
pub open spec fn strip_shebang_spec(s: Seq<char>) -> Seq<char> {
    match shebang_match(s) {
        Some((_, e)) => s.skip(e),
        None => s,
    }
}

/// Returns the input with the leading shebang, if there is one, omitted.
pub fn strip_shebang(s: &str) -> (r: &str)
    ensures
        r@ == strip_shebang_spec(s@),
{
    match regex_find(RE_SHEBANG, s) {
        Some((_a, e)) => {
            let n = s.unicode_len();
            proof {
                lemma_find_char(s@, '\n', 3);
            }
            s.substring_char(e, n)
        },
        None => s,
    }
}

/// The short comment manifest of `s`: the dependency list of a
/// `// cargo-deps:` comment on its first non-blank line.
pub open spec fn short_manifest_spec(s: Seq<char>) -> Option<Seq<char>> {
    match short_manifest_group(s) {
        Some((a, b)) => Some(s.subrange(a, b)),
        None => None,
    }
}

pub proof fn lemma_short_manifest_group(t: Seq<char>)
    ensures
        short_manifest_group(t) matches Some((a, b)) ==> 0 <= a <= b <= t.len(),
{
    let i0 = skip_ws(t, 0);
    lemma_skip_ws(t, 0);
    if crate::text::occurs_at(t, i0, "//"@) {
        reveal_strlit("//");
        lemma_skip_ws(t, i0 + 2);
        let i1 = skip_ws(t, i0 + 2);
        if crate::patterns::ci_cargo_deps_at(t, i1) {
            lemma_skip_ws(t, i1 + 10);
            let i2 = skip_ws(t, i1 + 10);
            if i2 < t.len() && t[i2] == ':' {
                lemma_find_line_end(t, i2 + 1);
            }
        }
    }
}

pub proof fn lemma_find_line_end(t: Seq<char>, i: int)
    requires
        0 <= i <= t.len(),
    ensures
        i <= crate::patterns::find_line_end(t, i) <= t.len(),
    decreases t.len() - i,
{
    if i < t.len() && !(t[i] == '\n' || (t[i] == '\r' && i + 1 < t.len() && t[i + 1] == '\n')) {
        lemma_find_line_end(t, i + 1);
    }
}

/// Locates a "short comment manifest" in Rust source.
pub fn find_short_comment_manifest(s: &str) -> (r: Option<(Manifest, &str)>)
    ensures
        match short_manifest_spec(s@) {
            Some(d) => r matches Some((m, src)) && m@ == ManifestView::DepList(d) && src == s,
            None => r is None,
        },
{
    match regex_short_manifest_group(s) {
        Some((a, b)) => {
            proof {
                lemma_short_manifest_group(s@);
            }
            Some((Manifest::DepList(s.substring_char(a, b)), s))
        },
        None => None,
    }
}

/// The code block manifest of `s`: the first `cargo` code block of the doc
/// comment that is the first thing in `s`.
pub open spec fn code_block_manifest_spec(s: Seq<char>) -> Option<Seq<char>> {
    match crate_comment_match(s) {
        None => None,
        Some((_, e)) => match extract_comment_spec(s.skip(e - 3)) {
            Err(_) => None,
            Ok(c) => scrape_from(markdown_events(c), false, None),
        },
    }
}

/// Locates a "code block manifest" in Rust source.
pub fn find_code_block_manifest(s: &str) -> (r: Option<(Manifest, &str)>)
    ensures
        match code_block_manifest_spec(s@) {
            Some(t) => r matches Some((m, src)) && m@ == ManifestView::TomlOwned(t) && src == s,
            None => r is None,
        },
{
    let start = match regex_find(RE_CRATE_COMMENT, s) {
        Some((_a, e)) => {
            proof {
                lemma_skip_ws(s@, 0);
                reveal_strlit("/*!");
                reveal_strlit("//!");
                reveal_strlit("///");
            }
            e - 3
        },
        None => {
            return None;
        },
    };
    let n = s.unicode_len();
    let rest = s.substring_char(start, n);
    assert(rest@ =~= s@.skip(start as int));
    let comment = match extract_comment(rest) {
        Ok(c) => c,
        Err(_) => {
            return None;
        },
    };
    match scrape_markdown_manifest(comment.as_str()) {
        Some(m) => Some((Manifest::TomlOwned(m), s)),
        None => None,
    }
}

/// The manifest embedded in `s`, if any: a short comment manifest, else a
/// code block manifest.
pub open spec fn embedded_manifest_spec(s: Seq<char>) -> Option<ManifestView> {
    match short_manifest_spec(s) {
        Some(d) => Some(ManifestView::DepList(d)),
        None => match code_block_manifest_spec(s) {
            Some(t) => Some(ManifestView::TomlOwned(t)),
            None => None,
        },
    }
}

/// Locates a manifest embedded in Rust source; gives the manifest and the
/// source.
pub fn find_embedded_manifest(s: &str) -> (r: Option<(Manifest, &str)>)
    ensures
        match embedded_manifest_spec(s@) {
            Some(mv) => r matches Some((m, src)) && m@ == mv && src == s,
            None => r is None,
        },
{
    match find_short_comment_manifest(s) {
        Some(x) => Some(x),
        None => find_code_block_manifest(s),
    }
}

/// The TOML text a dependency list stands for: a `[dependencies]` table with
/// a line per comma-separated item of the trimmed list; an item without `=`
/// gets the version `"*"`.
pub open spec fn dep_list_text(s: Seq<char>) -> Seq<char> {
    "[dependencies]\n"@ + dep_lines(split_spec(trim_spec(s), ','))
}

pub open spec fn dep_lines(items: Seq<Seq<char>>) -> Seq<char>
    decreases items.len(),
{
    if items.len() == 0 {
        Seq::empty()
    } else {
        dep_lines(items.drop_last()) + items.last() + (if items.last().contains('=') {
            "\n"@
        } else {
            "=\"*\"\n"@
        })
    }
}

/// The entries of a parsed TOML document, if it parses.
pub open spec fn parse_entries(text: Seq<char>) -> Option<Seq<(Seq<char>, TomlModel)>> {
    match toml_parse(text) {
        Some(TomlModel::Table(es)) => Some(es),
        _ => None,
    }
}

/// Each item of a dependency list becomes a line of its own, the same
/// wherever it stands: the lines of two lists one after the other are the
/// lines of the first and then those of the second.
pub proof fn law_dep_lines_concat(a: Seq<Seq<char>>, b: Seq<Seq<char>>)
    ensures
        dep_lines(a + b) == dep_lines(a) + dep_lines(b),
    decreases b.len(),
{
    if b.len() == 0 {
        assert(a + b =~= a);
        assert(dep_lines(a) + dep_lines(b) =~= dep_lines(a));
    } else {
        law_dep_lines_concat(a, b.drop_last());
        assert((a + b).drop_last() =~= a + b.drop_last());
        assert((a + b).last() == b.last());
        assert(dep_lines(a + b) =~= dep_lines(a) + dep_lines(b));
    }
}

proof fn lemma_dep_lines_plain(items: Seq<Seq<char>>)
    requires
        forall|i: int| 0 <= i < items.len() ==> !(#[trigger] items[i]).contains('='),
    ensures
        dep_lines(items) == items.map_values(|x: Seq<char>| x + "=\"*\"\n"@).flatten_alt(),
    decreases items.len(),
{
    if items.len() > 0 {
        let t = items.drop_last();
        assert forall|i: int| 0 <= i < t.len() implies !(#[trigger] t[i]).contains('=') by {
            assert(t[i] == items[i]);
        }
        lemma_dep_lines_plain(t);
        let m = items.map_values(|x: Seq<char>| x + "=\"*\"\n"@);
        assert(m.drop_last() =~= t.map_values(|x: Seq<char>| x + "=\"*\"\n"@));
        assert(!items[items.len() - 1].contains('='));
        assert(dep_lines(items) =~= m.flatten_alt());
    }
}

/// A dependency list whose items are plain crate names gives every one of
/// them the version `"*"`, whatever its place in the list: the text is the
/// `[dependencies]` header and a line `name="*"` for each item, in order.
pub proof fn law_dep_list_default_version(s: Seq<char>)
    requires
        forall|i: int|
            0 <= i < split_spec(trim_spec(s), ',').len() ==> !(#[trigger] split_spec(
                trim_spec(s),
                ',',
            )[i]).contains('='),
    ensures
        dep_list_text(s) == "[dependencies]\n"@ + split_spec(trim_spec(s), ',').map_values(
            |x: Seq<char>| x + "=\"*\"\n"@,
        ).flatten(),
{
    let items = split_spec(trim_spec(s), ',');
    lemma_dep_lines_plain(items);
    items.map_values(|x: Seq<char>| x + "=\"*\"\n"@).lemma_flatten_and_flatten_alt_are_equivalent();
}

/// Every item of a dependency list stands for a line of its own: an item
/// that names a version (it holds `=`) is kept as it is, any other gets the
/// version `"*"`; the lines come in the order of the items.
pub proof fn law_dep_list_lines(s: Seq<char>)
    ensures
        dep_list_text(s) == "[dependencies]\n"@ + split_spec(trim_spec(s), ',').map_values(
            |x: Seq<char>|
                x + if x.contains('=') {
                    "\n"@
                } else {
                    "=\"*\"\n"@
                },
        ).flatten(),
{
    let items = split_spec(trim_spec(s), ',');
    lemma_dep_lines_flat(items);
    items.map_values(
        |x: Seq<char>|
            x + if x.contains('=') {
                "\n"@
            } else {
                "=\"*\"\n"@
            },
    ).lemma_flatten_and_flatten_alt_are_equivalent();
}

proof fn lemma_dep_lines_flat(items: Seq<Seq<char>>)
    ensures
        dep_lines(items) == items.map_values(
            |x: Seq<char>|
                x + if x.contains('=') {
                    "\n"@
                } else {
                    "=\"*\"\n"@
                },
        ).flatten_alt(),
    decreases items.len(),
{
    if items.len() > 0 {
        let t = items.drop_last();
        lemma_dep_lines_flat(t);
        let m = items.map_values(
            |x: Seq<char>|
                x + if x.contains('=') {
                    "\n"@
                } else {
                    "=\"*\"\n"@
                },
        );
        assert(m.drop_last() =~= t.map_values(
            |x: Seq<char>|
                x + if x.contains('=') {
                    "\n"@
                } else {
                    "=\"*\"\n"@
                },
        ));
        assert(dep_lines(items) =~= m.flatten_alt());
    }
}

/// Parses a TOML document into a table.
pub fn parse_toml_table(text: &str) -> (r: Result<toml::map::Map<String, toml::Value>, toml::de::Error>)
    ensures
        r is Ok <==> toml_parse(text@) is Some,
        r matches Ok(t) ==> parse_entries(text@) == Some(table_entries(t)) && keys_sorted(
            table_entries(t),
        ),
{
    toml_parse_table(text)
}

fn dep_list_text_exec(s: &str) -> (r: String)
    ensures
        r@ == dep_list_text(s@),
{
    let sv = chars_of(s);
    let t = trim_chars(&sv);
    let mut out: Vec<char> = Vec::new();
    push_str(&mut out, "[dependencies]\n");
    let ghost items = split_spec(t@, ',');
    let ghost head = out@;
    let mut p: usize = 0;
    let mut done: usize = 0;
    // split_spec of the rest of t from p gives the remaining items
    assert(t@.skip(0) =~= t@);
    loop
        invariant
            p <= t@.len(),
            done <= items.len(),
            done <= p,
            t@ == trim_spec(s@),
            head == "[dependencies]\n"@,
            items == split_spec(t@, ','),
            items.skip(done as int) == split_spec(t@.skip(p as int), ','),
            out@ == head + dep_lines(items.take(done as int)),
        decreases t@.len() - p,
    {
        let j = find_char_exec(&t, ',', p);
        proof {
            lemma_find_char(t@, ',', p as int);
            lemma_find_char_skip(t@, ',', p as int);
        }
        let ghost rest = t@.skip(p as int);
        assert(split_spec(rest, ',').len() >= 1);
        assert(done < items.len());
        let mut item: Vec<char> = Vec::new();
        push_range(&mut item, &t, p, j);
        assert(item@ =~= t@.subrange(p as int, j as int));
        let has_eq = find_char_exec(&item, '=', 0) < item.len();
        proof {
            lemma_find_char(item@, '=', 0);
            if has_eq {
                assert(item@[find_char(item@, '=', 0)] == '=');
                assert(item@.contains('='));
            } else {
                assert forall|k: int| 0 <= k < item@.len() implies item@[k] != '=' by {}
                assert(!item@.contains('='));
            }
        }
        let ghost out0 = out@;
        push_range(&mut out, &item, 0, item.len());
        if has_eq {
            push_str(&mut out, "\n");
        } else {
            push_str(&mut out, "=\"*\"\n");
        }
        assert(item@.subrange(0, item@.len() as int) =~= item@);
        assert(items.skip(done as int)[0] == item@) by {
            if j < t@.len() {
                assert(rest.take(j - p) =~= item@);
            } else {
                assert(rest =~= item@);
            }
        }
        assert(items.take(done + 1).drop_last() =~= items.take(done as int));
        assert(items.take(done + 1).last() == item@);
        assert(out@ == head + dep_lines(items.take(done + 1)));
        if j < t.len() {
            assert(items.skip(done as int).drop_first() =~= items.skip(done + 1));
            assert(rest.skip(j - p + 1) =~= t@.skip(j + 1));
            p = j + 1;
            done = done + 1;
        } else {
            assert(items.skip(done as int).len() == 1);
            assert(items.take(done + 1) =~= items);
            proof {
                reveal_strlit("[dependencies]\n");
            }
            return string_of(out.as_slice());
        }
    }
}

pub proof fn lemma_find_char_skip(s: Seq<char>, c: char, p: int)
    requires
        0 <= p <= s.len(),
    ensures
        find_char(s.skip(p), c, 0) == find_char(s, c, p) - p,
    decreases s.len() - p,
{
    lemma_find_char(s, c, p);
    lemma_find_char(s.skip(p), c, 0);
    let a = find_char(s.skip(p), c, 0);
    let b = find_char(s, c, p);
    if a + p < b {
        assert(s.skip(p)[a] == s[a + p]);
    } else if a + p > b {
        assert(s.skip(p)[b - p] == s[b]);
    }
}

/// The text of a partial manifest holding the given dependencies: a
/// `[dependencies]` table with a line `NAME="VERSION"` for each, or
/// `NAME=VERSION` where the version is an inline table (starts with `{`).
pub open spec fn deps_text(deps: Seq<(Seq<char>, Seq<char>)>) -> Seq<char> {
    "[dependencies]\n"@ + deps_lines(deps)
}

pub open spec fn deps_lines(deps: Seq<(Seq<char>, Seq<char>)>) -> Seq<char>
    decreases deps.len(),
{
    if deps.len() == 0 {
        Seq::empty()
    } else {
        let (name, ver) = deps.last();
        let q = if ver.len() > 0 && ver[0] == '{' {
            Seq::empty()
        } else {
            "\""@
        };
        deps_lines(deps.drop_last()) + name + "="@ + q + ver + q + "\n"@
    }
}

fn deps_text_exec(deps: &Vec<(String, String)>) -> (r: String)
    ensures
        r@ == deps_text(crate::input::deps_view(deps@)),
{
    let ghost dv = crate::input::deps_view(deps@);
    let mut out: Vec<char> = Vec::new();
    push_str(&mut out, "[dependencies]\n");
    let ghost head = out@;
    let mut i: usize = 0;
    assert(dv.take(0) =~= Seq::<(Seq<char>, Seq<char>)>::empty());
    while i < deps.len()
        invariant
            dv == crate::input::deps_view(deps@),
            i <= deps@.len(),
            out@ == head + deps_lines(dv.take(i as int)),
        decreases deps@.len() - i,
    {
        let name = &deps[i].0;
        let ver = &deps[i].1;
        let table = ver.as_str().unicode_len() > 0 && ver.as_str().get_char(0) == '{';
        let ghost out0 = out@;
        push_str(&mut out, name.as_str());
        push_str(&mut out, "=");
        if !table {
            push_str(&mut out, "\"");
        }
        push_str(&mut out, ver.as_str());
        if !table {
            push_str(&mut out, "\"");
        }
        push_str(&mut out, "\n");
        assert(dv.take(i + 1).drop_last() =~= dv.take(i as int));
        assert(dv.take(i + 1).last() == (name@, ver@));
        if table {
            assert(out@ =~= out0 + name@ + "="@ + Seq::<char>::empty() + ver@ + Seq::<char>::empty()
                + "\n"@);
        } else {
            assert(out@ =~= out0 + name@ + "="@ + "\""@ + ver@ + "\""@ + "\n"@);
        }
        i = i + 1;
    }
    assert(dv.take(i as int) =~= dv);
    proof {
        reveal_strlit("[dependencies]\n");
    }
    string_of(out.as_slice())
}

/// The error a TOML parse error becomes: tagged with what could not be parsed.
fn tagged_toml_error(tag: &str, e: &toml::de::Error) -> (r: MainError)
    ensures
        r matches MainError::Tag(t, inner) && t@ == tag@ && *inner is Other,
{
    let msg = toml_de_error_text(e);
    MainError::Tag(tag.to_owned(), Box::new(MainError::Other(msg)))
}

/// The entries of the manifest `m`, if its text parses.
pub open spec fn into_toml_spec(m: ManifestView) -> Option<Seq<(Seq<char>, TomlModel)>> {
    match m {
        ManifestView::Toml(s) => parse_entries(s),
        ManifestView::TomlOwned(s) => parse_entries(s),
        ManifestView::DepList(s) => parse_entries(dep_list_text(s)),
    }
}

impl<'s> Manifest<'s> {
    /// The manifest as a TOML table, or the error tagged `could not parse
    /// embedded manifest`.
    pub fn into_toml(self) -> (r: Result<toml::map::Map<String, toml::Value>, MainError>)
        ensures
            match into_toml_spec(self@) {
                Some(es) => r matches Ok(t) && table_entries(t) == es && keys_sorted(es),
                None => r matches Err(e) && e matches MainError::Tag(t, _) && t@
                    == "could not parse embedded manifest"@,
            },
    {
        let parsed = match self {
            Manifest::Toml(s) => parse_toml_table(s),
            Manifest::TomlOwned(s) => parse_toml_table(s.as_str()),
            Manifest::DepList(s) => Manifest::dep_list_to_toml(s),
        };
        match parsed {
            Ok(es) => Ok(es),
            Err(e) => Err(tagged_toml_error("could not parse embedded manifest", &e)),
        }
    }

    /// The table a comma-delimited dependency list stands for.
    pub fn dep_list_to_toml(s: &str) -> (r: Result<toml::map::Map<String, toml::Value>, toml::de::Error>)
        ensures
            r is Ok <==> toml_parse(dep_list_text(s@)) is Some,
            r matches Ok(t) ==> parse_entries(dep_list_text(s@)) == Some(table_entries(t))
                && keys_sorted(table_entries(t)),
    {
        let text = dep_list_text_exec(s);
        parse_toml_table(text.as_str())
    }
}

/// A partial Cargo manifest holding the given dependencies, or the error
/// tagged `could not parse dependency manifest`.
pub fn deps_manifest(deps: &Vec<(String, String)>) -> (r: Result<toml::map::Map<String, toml::Value>, MainError>)
    ensures
        match parse_entries(deps_text(crate::input::deps_view(deps@))) {
            Some(es) => r matches Ok(t) && table_entries(t) == es && keys_sorted(es),
            None => r matches Err(e) && e matches MainError::Tag(t, _) && t@
                == "could not parse dependency manifest"@,
        },
{
    let text = deps_text_exec(deps);
    match parse_toml_table(text.as_str()) {
        Ok(es) => Ok(es),
        Err(e) => Err(tagged_toml_error("could not parse dependency manifest", &e)),
    }
}

} // verus!
