//! The regular expressions the library matches scripts and templates against,
//! with what each of them matches, and the calls into the `regex` crate.
use vstd::prelude::*;
use crate::text::{find_char, occurs_at, skip_ws};

verus! {

/// A shebang line: `#!` not followed by `[`, up to and including the line end.
pub const RE_SHEBANG: &'static str = r"^#![^\[].*?(\r\n|\n)";

/// A short `// cargo-deps: ...` comment as the first non-blank line.
pub const RE_SHORT_MANIFEST: &'static str = r"^(?i)\s*//\s*cargo-deps\s*:(.*?)(\r\n|\n)";

/// The margin of a block comment line: white space, `*`, then a space or the end.
pub const RE_MARGIN: &'static str = r"^\s*\*( |$)";

/// Leading white space.
pub const RE_SPACE: &'static str = r"^(\s+)";

/// A block comment opener or closer.
pub const RE_NESTING: &'static str = r"/\*|\*/";

/// A line doc comment marker (`//!` or `///`) after optional white space.
pub const RE_COMMENT: &'static str = r"^\s*//(!|/)";

/// An inner or outer doc comment as the first thing in the text.
pub const RE_CRATE_COMMENT: &'static str = r"^\s*(/\*!|//(!|/))";

/// A template placeholder `#{name}`.
pub const RE_SUB: &'static str = r"#\{([A-Za-z_][A-Za-z0-9_]*)}";

/// The patterns this library hands to the regex engine.
pub open spec fn known_pattern(p: Seq<char>) -> bool {
    ||| p == RE_SHEBANG@
    ||| p == RE_SHORT_MANIFEST@
    ||| p == RE_MARGIN@
    ||| p == RE_SPACE@
    ||| p == RE_NESTING@
    ||| p == RE_COMMENT@
    ||| p == RE_CRATE_COMMENT@
    ||| p == RE_SUB@
}

/// The match of `RE_SHEBANG` in `t`, as a range of character indices.
pub open spec fn shebang_match(t: Seq<char>) -> Option<(int, int)> {
    if t.len() >= 3 && t[0] == '#' && t[1] == '!' && t[2] != '[' {
        let j = find_char(t, '\n', 3);
        if j < t.len() {
            Some((0, j + 1))
        } else {
            None
        }
    } else {
        None
    }
}

/// Does `c` match the letter `l` (given in lower case) case-insensitively,
/// under simple Unicode case folding?
pub open spec fn ci_letter(c: char, l: char) -> bool {
    ||| c == l
    ||| (c as u32) + 32 == (l as u32)
    ||| (l == 's' && c == '\u{17f}')
}

/// Does `cargo-deps` occur case-insensitively in `t` at `i`?
pub open spec fn ci_cargo_deps_at(t: Seq<char>, i: int) -> bool {
    &&& 0 <= i
    &&& i + 10 <= t.len()
    &&& ci_letter(t[i], 'c')
    &&& ci_letter(t[i + 1], 'a')
    &&& ci_letter(t[i + 2], 'r')
    &&& ci_letter(t[i + 3], 'g')
    &&& ci_letter(t[i + 4], 'o')
    &&& t[i + 5] == '-'
    &&& ci_letter(t[i + 6], 'd')
    &&& ci_letter(t[i + 7], 'e')
    &&& ci_letter(t[i + 8], 'p')
    &&& ci_letter(t[i + 9], 's')
}

/// Index of the first line ending (`"\r\n"` or `'\n'`) at or after `i`
/// (the length of `t` when there is none).
pub open spec fn find_line_end(t: Seq<char>, i: int) -> int
    decreases t.len() - i,
{
    if i < 0 {
        find_line_end(t, 0)
    } else if i >= t.len() {
        t.len() as int
    } else if t[i] == '\n' || (t[i] == '\r' && i + 1 < t.len() && t[i + 1] == '\n') {
        i
    } else {
        find_line_end(t, i + 1)
    }
}

/// Capture group 1 of `RE_SHORT_MANIFEST` in `t`: what follows `cargo-deps:`
/// up to the end of that line.
pub open spec fn short_manifest_group(t: Seq<char>) -> Option<(int, int)> {
    let i0 = skip_ws(t, 0);
    if !occurs_at(t, i0, "//"@) {
        None
    } else {
        let i1 = skip_ws(t, i0 + 2);
        if !ci_cargo_deps_at(t, i1) {
            None
        } else {
            let i2 = skip_ws(t, i1 + 10);
            if !(i2 < t.len() && t[i2] == ':') {
                None
            } else {
                let e = find_line_end(t, i2 + 1);
                if e < t.len() {
                    Some((i2 + 1, e))
                } else {
                    None
                }
            }
        }
    }
}

/// The match of `RE_MARGIN` in `t`.
pub open spec fn margin_match(t: Seq<char>) -> Option<(int, int)> {
    let i0 = skip_ws(t, 0);
    if i0 < t.len() && t[i0] == '*' {
        if i0 + 1 < t.len() && t[i0 + 1] == ' ' {
            Some((0, i0 + 2))
        } else if i0 + 1 == t.len() {
            Some((0, i0 + 1))
        } else {
            None
        }
    } else {
        None
    }
}

/// The match of `RE_SPACE` in `t`.
pub open spec fn space_match(t: Seq<char>) -> Option<(int, int)> {
    let i0 = skip_ws(t, 0);
    if i0 > 0 {
        Some((0, i0))
    } else {
        None
    }
}

/// Index of the first `"/*"` or `"*/"` at or after `i` (the length of `t` when
/// there is none).
pub open spec fn find_nesting(t: Seq<char>, i: int) -> int
    decreases t.len() - i,
{
    if i < 0 {
        find_nesting(t, 0)
    } else if i + 1 >= t.len() {
        t.len() as int
    } else if (t[i] == '/' && t[i + 1] == '*') || (t[i] == '*' && t[i + 1] == '/') {
        i
    } else {
        find_nesting(t, i + 1)
    }
}

/// The leftmost match of `RE_NESTING` in `t`.
pub open spec fn nesting_match(t: Seq<char>) -> Option<(int, int)> {
    let p = find_nesting(t, 0);
    if p < t.len() {
        Some((p, p + 2))
    } else {
        None
    }
}

/// The match of `RE_COMMENT` in `t`.
pub open spec fn comment_match(t: Seq<char>) -> Option<(int, int)> {
    let i0 = skip_ws(t, 0);
    if occurs_at(t, i0, "//!"@) || occurs_at(t, i0, "///"@) {
        Some((0, i0 + 3))
    } else {
        None
    }
}

/// The match of `RE_CRATE_COMMENT` in `t`; its capture group 1 is the last
/// three characters of the match.
pub open spec fn crate_comment_match(t: Seq<char>) -> Option<(int, int)> {
    let i0 = skip_ws(t, 0);
    if occurs_at(t, i0, "/*!"@) || occurs_at(t, i0, "//!"@) || occurs_at(t, i0, "///"@) {
        Some((0, i0 + 3))
    } else {
        None
    }
}

pub open spec fn is_ident_start(c: char) -> bool {
    ('a' <= c && c <= 'z') || ('A' <= c && c <= 'Z') || c == '_'
}

pub open spec fn is_ident_char(c: char) -> bool {
    is_ident_start(c) || ('0' <= c && c <= '9')
}

/// End of the run of identifier characters starting at `i`.
pub open spec fn ident_run_end(t: Seq<char>, i: int) -> int
    decreases t.len() - i,
{
    if i < 0 || i >= t.len() {
        if i < 0 { 0 } else { t.len() as int }
    } else if is_ident_char(t[i]) {
        ident_run_end(t, i + 1)
    } else {
        i
    }
}

/// Is there a placeholder `#{name}` at `p`?
pub open spec fn placeholder_at(t: Seq<char>, p: int) -> bool {
    &&& 0 <= p
    &&& p + 3 < t.len()
    &&& t[p] == '#'
    &&& t[p + 1] == '{'
    &&& is_ident_start(t[p + 2])
    &&& ident_run_end(t, p + 3) < t.len()
    &&& t[ident_run_end(t, p + 3)] == '}'
}

/// Index of the first placeholder at or after `i` (the length of `t` when there
/// is none).
pub open spec fn find_placeholder(t: Seq<char>, i: int) -> int
    decreases t.len() - i,
{
    if i < 0 {
        find_placeholder(t, 0)
    } else if i >= t.len() {
        t.len() as int
    } else if placeholder_at(t, i) {
        i
    } else {
        find_placeholder(t, i + 1)
    }
}

/// The leftmost match of `RE_SUB` in `t`; its capture group 1 (the name) is
/// the match without its first two and its last character.
pub open spec fn sub_match(t: Seq<char>) -> Option<(int, int)> {
    let p = find_placeholder(t, 0);
    if p < t.len() {
        Some((p, ident_run_end(t, p + 3) + 1))
    } else {
        None
    }
}

pub open spec fn same_range(r: Option<(usize, usize)>, s: Option<(int, int)>) -> bool {
    match r {
        Some((a, b)) => s == Some((a as int, b as int)),
        None => s is None,
    }
}

/// `regex::Regex::find`: the leftmost-first match of `pattern` in `text`,
/// given as character indices. The contract states, for each pattern of this
/// library other than `RE_SHORT_MANIFEST`, which match the regex syntax of the
/// crate's documentation defines (`\s` is `\p{White_Space}`, `.` is any
/// character but `'\n'`, `^` and `$` are the ends of the text).
#[verifier::external_body]
pub(crate) fn regex_find(pattern: &str, text: &str) -> (r: Option<(usize, usize)>)
    requires
        known_pattern(pattern@),
    ensures
        pattern@ == RE_SHEBANG@ ==> same_range(r, shebang_match(text@)),
        pattern@ == RE_MARGIN@ ==> same_range(r, margin_match(text@)),
        pattern@ == RE_SPACE@ ==> same_range(r, space_match(text@)),
        pattern@ == RE_NESTING@ ==> same_range(r, nesting_match(text@)),
        pattern@ == RE_COMMENT@ ==> same_range(r, comment_match(text@)),
        pattern@ == RE_CRATE_COMMENT@ ==> same_range(r, crate_comment_match(text@)),
        pattern@ == RE_SUB@ ==> same_range(r, sub_match(text@)),
{
    let re = regex::Regex::new(pattern).unwrap();
    re.find(text).map(|m| (text[..m.start()].chars().count(), text[..m.end()].chars().count()))
}

/// `regex::Regex::captures` with `RE_SHORT_MANIFEST`: the span of capture
/// group 1, in character indices. `(?i)` matches each letter of `cargo-deps`
/// under simple case folding.
#[verifier::external_body]
pub(crate) fn regex_short_manifest_group(text: &str) -> (r: Option<(usize, usize)>)
    ensures
        same_range(r, short_manifest_group(text@)),
{
    let re = regex::Regex::new(RE_SHORT_MANIFEST).unwrap();
    re.captures(text).and_then(|c| c.get(1)).map(
        |m| (text[..m.start()].chars().count(), text[..m.end()].chars().count()),
    )
}

} // verus!
