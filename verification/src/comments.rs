//! Extracting the text of a Rust doc comment.
use vstd::prelude::*;
use crate::error::MainError;
use crate::patterns::{
    comment_match, find_nesting, margin_match, nesting_match, regex_find, space_match,
    RE_COMMENT, RE_MARGIN, RE_NESTING, RE_SPACE,
};
use crate::text::{
    chars_of, lines_from, lines_of, next_line, occurs_at, push_range, push_str, string_of,
};

verus! {

/// Number of bytes of the UTF-8 encoding of `c`.
pub open spec fn char_utf8_len(c: char) -> int {
    let u = c as u32;
    if u < 0x80 {
        1
    } else if u < 0x800 {
        2
    } else if u < 0x10000 {
        3
    } else {
        4
    }
}

/// Number of bytes of the UTF-8 encoding of `s`.
pub open spec fn utf8_len(s: Seq<char>) -> int
    decreases s.len(),
{
    if s.len() == 0 {
        0
    } else {
        utf8_len(s.drop_last()) + char_utf8_len(s.last())
    }
}

pub open spec fn min(a: int, b: int) -> int {
    if a <= b {
        a
    } else {
        b
    }
}

/// Are all characters of `s` spaces?
pub open spec fn all_spaces(s: Seq<char>) -> bool {
    forall|i: int| 0 <= i < s.len() ==> s[i] == ' '
}

/// What `{:?}` writes for a string: the text in double quotes, with the
/// characters that need it escaped.
pub uninterp spec fn debug_str(s: Seq<char>) -> Seq<char>;

/// `format!("{:?}", s)` for a string slice.
#[verifier::external_body]
fn debug_text(s: &str) -> (r: String)
    ensures
        r@ == debug_str(s@),
{
    format!("{:?}", s)
}

/// The decimal digit of a value below ten.
pub open spec fn digit_char(d: nat) -> char {
    ((d + 48) as u8) as char
}

/// A number in decimal, as `{:?}` and `{}` write an unsigned integer.
pub open spec fn decimal(n: nat) -> Seq<char>
    decreases n,
{
    if n < 10 {
        seq![digit_char(n)]
    } else {
        decimal(n / 10).push(digit_char(n % 10))
    }
}

/// The text of the error for a line whose first `n` characters are not all
/// spaces.
pub open spec fn leading_spaces_text(n: int, line: Seq<char>) -> Seq<char> {
    "leading "@ + decimal(n as nat) + " chars aren't all spaces: "@ + debug_str(line)
}

fn push_decimal(v: &mut Vec<char>, n: u128)
    ensures
        final(v)@ == old(v)@ + decimal(n as nat),
    decreases n,
{
    if n >= 10 {
        push_decimal(v, n / 10);
    }
    let d = (n % 10) as u8;
    v.push((d + 48) as char);
    assert(decimal(n as nat) == if n < 10 {
        seq![digit_char(n as nat)]
    } else {
        decimal((n / 10) as nat).push(digit_char((n % 10) as nat))
    });
}

/// The error text for a line whose first `n` characters are not all spaces.
fn leading_spaces_message(n: u128, line: &str) -> (r: String)
    ensures
        r@ == leading_spaces_text(n as int, line@),
{
    let mut v: Vec<char> = Vec::new();
    push_str(&mut v, "leading ");
    push_decimal(&mut v, n);
    push_str(&mut v, " chars aren't all spaces: ");
    let d = debug_text(line);
    push_str(&mut v, d.as_str());
    assert(v@ =~= leading_spaces_text(n as int, line@));
    string_of(v.as_slice())
}

pub proof fn lemma_find_nesting(t: Seq<char>, i: int)
    requires
        0 <= i <= t.len(),
    ensures
        i <= find_nesting(t, i) <= t.len(),
        find_nesting(t, i) < t.len() ==> find_nesting(t, i) + 1 < t.len(),
    decreases t.len() - i,
{
    if i + 1 < t.len() && !((t[i] == '/' && t[i + 1] == '*') || (t[i] == '*' && t[i + 1] == '/')) {
        lemma_find_nesting(t, i + 1);
    }
}

/// Scans a line for comment openers and closers from index `p`, starting at
/// nesting depth `depth`: gives where the comment ends on this line, if it
/// does, and the depth after the line.
pub open spec fn scan_nesting(line: Seq<char>, p: int, depth: int) -> (Option<int>, int)
    decreases line.len() - p,
{
    if p < 0 || p > line.len() {
        (None, depth)
    } else {
        match nesting_match(line.skip(p)) {
            None => (None, depth),
            Some((a, b)) => {
                let q = p + a;
                proof {
                    lemma_find_nesting(line.skip(p), 0);
                }
                if line[q] == '/' {
                    scan_nesting(line, q + 2, depth + 1)
                } else if depth <= 1 {
                    (Some(q), 0)
                } else {
                    scan_nesting(line, q + 2, depth - 1)
                }
            },
        }
    }
}

/// The state carried from line to line while reading a block comment.
pub struct BlockState {
    pub out: Seq<char>,
    pub leading: Option<int>,
    pub margin: Option<int>,
    pub depth: int,
}

/// Reads the lines of a block comment (what follows `/*!`): tracks nesting
/// to find the end of the comment, strips the margin (`*` with white space
/// before it) seen on the first line that has one, then strips the leading
/// indentation seen on the first line that has one (its length counted in
/// bytes), which must be spaces. Gives the text read, or the length of the
/// indentation and the line at which it is not made of spaces.
pub open spec fn block_lines(lines: Seq<Seq<char>>, st: BlockState) -> Result<Seq<char>, (int, Seq<char>)>
    decreases lines.len(),
{
    if lines.len() == 0 || st.depth == 0 {
        Ok(st.out)
    } else {
        let line = lines[0];
        let (eoc, d) = scan_nesting(line, 0, st.depth);
        let line1 = match eoc {
            Some(e) => line.take(e),
            None => line,
        };
        let margin = match st.margin {
            Some(m) => Some(m),
            None => match margin_match(line1) {
                Some((a, b)) => Some(utf8_len(line1.subrange(a, b))),
                None => None,
            },
        };
        let line2 = match margin {
            Some(m) => line1.skip(min(m, line1.len() as int)),
            None => line1,
        };
        let leading = match st.leading {
            Some(n) => Some(n),
            None => match space_match(line2) {
                Some((a, b)) => Some(utf8_len(line2.subrange(a, b))),
                None => None,
            },
        };
        let n = match leading {
            Some(n) => n,
            None => 0,
        };
        let k = min(n, line2.len() as int);
        if !all_spaces(line2.take(k)) {
            Err((n, line2))
        } else {
            block_lines(
                lines.drop_first(),
                BlockState { out: st.out + line2.skip(k) + seq!['\n'], leading, margin, depth: d },
            )
        }
    }
}

/// Reads the lines of a line doc comment: each line must start with `//!` or
/// `///` (after optional white space), else reading stops; the leading
/// indentation seen on the first line that has one is stripped (its length
/// counted in bytes) and must be spaces.
pub open spec fn line_lines(lines: Seq<Seq<char>>, out: Seq<char>, leading: Option<int>) -> Result<
    Seq<char>,
    (int, Seq<char>),
>
    decreases lines.len(),
{
    if lines.len() == 0 {
        Ok(out)
    } else {
        match comment_match(lines[0]) {
            None => Ok(out),
            Some((a, e)) => {
                let content = lines[0].skip(e);
                let leading2 = match leading {
                    Some(n) => Some(n),
                    None => match space_match(content) {
                        Some((a2, b2)) => Some(utf8_len(content.subrange(a2, b2))),
                        None => None,
                    },
                };
                let n = match leading2 {
                    Some(n) => n,
                    None => 0,
                };
                let k = min(n, content.len() as int);
                if !all_spaces(content.take(k)) {
                    Err((n, content))
                } else {
                    line_lines(lines.drop_first(), out + content.skip(k) + seq!['\n'], leading2)
                }
            },
        }
    }
}

/// The text of the doc comment at the start of `s`, or why there is none.
pub open spec fn extract_comment_spec(s: Seq<char>) -> Result<Seq<char>, Option<(int, Seq<char>)>> {
    if occurs_at(s, 0, "/*!"@) {
        match block_lines(
            lines_of(s.skip(3)),
            BlockState { out: Seq::empty(), leading: None, margin: None, depth: 1 },
        ) {
            Ok(t) => Ok(t),
            Err(x) => Err(Some(x)),
        }
    } else if occurs_at(s, 0, "//!"@) || occurs_at(s, 0, "///"@) {
        match line_lines(lines_of(s), Seq::empty(), None) {
            Ok(t) => Ok(t),
            Err(x) => Err(Some(x)),
        }
    } else {
        Err(None)
    }
}

/// Does the result of `extract_comment` agree with `extract_comment_spec`?
pub open spec fn extract_result_is(r: Result<String, MainError>, s: Result<Seq<char>, Option<(int, Seq<char>)>>) -> bool {
    match s {
        Ok(t) => r matches Ok(x) && x@ == t,
        Err(None) => r matches Err(e) && e == MainError::OtherBorrowed("no doc comment found"),
        Err(Some((n, l))) => r matches Err(e) && e matches MainError::OtherOwned(m) && m@
            == leading_spaces_text(n, l),
    }
}

fn utf8_len_exec(v: &Vec<char>, a: usize, b: usize) -> (r: u128)
    requires
        a <= b <= v@.len(),
    ensures
        r == utf8_len(v@.subrange(a as int, b as int)),
{
    let mut k = a;
    let mut n: u128 = 0;
    assert(v@.subrange(a as int, a as int) =~= Seq::<char>::empty());
    while k < b
        invariant
            a <= k <= b,
            b <= v@.len(),
            n == utf8_len(v@.subrange(a as int, k as int)),
            n <= 4 * (k - a),
        decreases b - k,
    {
        let c = v[k];
        let u = c as u32;
        let w: u128 = if u < 0x80 {
            1
        } else if u < 0x800 {
            2
        } else if u < 0x10000 {
            3
        } else {
            4
        };
        assert(v@.subrange(a as int, k + 1).drop_last() =~= v@.subrange(a as int, k as int));
        n = n + w;
        k = k + 1;
    }
    n
}

fn copy_range(v: &Vec<char>, a: usize, b: usize) -> (r: Vec<char>)
    requires
        a <= b <= v@.len(),
    ensures
        r@ == v@.subrange(a as int, b as int),
{
    let mut r = Vec::new();
    push_range(&mut r, v, a, b);
    assert(r@ =~= v@.subrange(a as int, b as int));
    r
}

fn min_usize(n: u128, len: usize) -> (r: usize)
    ensures
        r == min(n as int, len as int),
{
    if n <= len as u128 {
        n as usize
    } else {
        len
    }
}

fn all_spaces_exec(v: &Vec<char>, k: usize) -> (r: bool)
    requires
        k <= v@.len(),
    ensures
        r == all_spaces(v@.take(k as int)),
{
    let mut i: usize = 0;
    while i < k
        invariant
            k <= v@.len(),
            i <= k,
            forall|t: int| 0 <= t < i ==> v@[t] == ' ',
        decreases k - i,
    {
        if v[i] != ' ' {
            assert(v@.take(k as int)[i as int] != ' ');
            return false;
        }
        i = i + 1;
    }
    true
}

fn scan_nesting_exec(line: &Vec<char>, depth: u128) -> (r: (Option<usize>, u128))
    requires
        1 <= depth,
        depth + line@.len() <= u128::MAX,
    ensures
        ({
            let (e, d) = scan_nesting(line@, 0, depth as int);
            &&& d == r.1 as int
            &&& match e {
                Some(q) => r.0 == Some(q as usize) && 0 <= q <= line@.len(),
                None => r.0 is None,
            }
            &&& r.1 <= depth + line@.len()
        }),
{
    let mut p: usize = 0;
    let mut d: u128 = depth;
    while p <= line.len()
        invariant
            p <= line@.len(),
            1 <= d,
            d <= depth + p,
            depth + line@.len() <= u128::MAX,
            scan_nesting(line@, 0, depth as int) == scan_nesting(line@, p as int, d as int),
        decreases line@.len() + 2 - p,
    {
        let rest = copy_range(line, p, line.len());
        let rs = string_of(rest.as_slice());
        assert(rest@ =~= line@.skip(p as int));
        match regex_find(RE_NESTING, rs.as_str()) {
            None => {
                return (None, d);
            },
            Some((a, _b)) => {
                proof {
                    lemma_find_nesting(line@.skip(p as int), 0);
                }
                let q = p + a;
                assert(line@.skip(p as int)[a as int] == line@[q as int]);
                if line[q] == '/' {
                    d = d + 1;
                    p = q + 2;
                } else if d <= 1 {
                    return (Some(q), 0);
                } else {
                    d = d - 1;
                    p = q + 2;
                }
            },
        }
    }
    (None, d)
}

/// The length in bytes of what `pattern` matches at the start of `v`, if it does.
fn match_len_at_start(pattern: &'static str, v: &Vec<char>) -> (r: Option<u128>)
    requires
        pattern@ == RE_MARGIN@ || pattern@ == RE_SPACE@,
    ensures
        pattern@ == RE_MARGIN@ ==> match margin_match(v@) {
            Some((a, b)) => r is Some && r->0 as int == utf8_len(v@.subrange(a, b)),
            None => r is None,
        },
        pattern@ == RE_SPACE@ ==> match space_match(v@) {
            Some((a, b)) => r is Some && r->0 as int == utf8_len(v@.subrange(a, b)),
            None => r is None,
        },
{
    let s = string_of(v.as_slice());
    match regex_find(pattern, s.as_str()) {
        Some((a, b)) => {
            proof {
                crate::text::lemma_skip_ws(v@, 0);
            }
            Some(utf8_len_exec(v, a, b))
        },
        None => None,
    }
}

fn extract_block(s: &str) -> (r: Result<String, MainError>)
    ensures
        match block_lines(
            lines_of(s@),
            BlockState { out: Seq::empty(), leading: None, margin: None, depth: 1 },
        ) {
            Ok(t) => r matches Ok(x) && x@ == t,
            Err((n, l)) => r matches Err(e) && e matches MainError::OtherOwned(m) && m@
                == leading_spaces_text(n, l),
        },
{
    let sv = chars_of(s);
    let ghost goal = block_lines(
        lines_of(s@),
        BlockState { out: Seq::empty(), leading: None, margin: None, depth: 1 },
    );
    let mut out: Vec<char> = Vec::new();
    let mut leading: Option<u128> = None;
    let mut margin: Option<u128> = None;
    let mut depth: u128 = 1;
    let mut i: usize = 0;
    while i < sv.len() && depth != 0
        invariant
            sv@ == s@,
            i <= sv@.len(),
            depth <= 1 + i,
            goal == block_lines(
                lines_of(s@),
                BlockState { out: Seq::empty(), leading: None, margin: None, depth: 1 },
            ),
            goal == block_lines(
                lines_from(sv@, i as int),
                BlockState {
                    out: out@,
                    leading: match leading {
                        Some(n) => Some(n as int),
                        None => None,
                    },
                    margin: match margin {
                        Some(n) => Some(n as int),
                        None => None,
                    },
                    depth: depth as int,
                },
            ),
        decreases sv@.len() - i,
    {
        let (ls, le, next) = next_line(&sv, i);
        let ghost lines = lines_from(sv@, i as int);
        let line = copy_range(&sv, ls, le);
        assert(lines[0] == line@);
        assert(lines.drop_first() =~= lines_from(sv@, next as int));
        let ghost st = BlockState {
            out: out@,
            leading: match leading {
                Some(n) => Some(n as int),
                None => None,
            },
            margin: match margin {
                Some(n) => Some(n as int),
                None => None,
            },
            depth: depth as int,
        };
        assert(goal == block_lines(lines, st));
        let (eoc, d) = scan_nesting_exec(&line, depth);
        let ghost (seoc, sd) = scan_nesting(line@, 0, depth as int);
        let line1 = match eoc {
            Some(e) => copy_range(&line, 0, e),
            None => line,
        };
        let ghost sline1 = match seoc {
            Some(e) => line@.take(e),
            None => line@,
        };
        assert(line1@ =~= sline1);
        if margin.is_none() {
            margin = match_len_at_start(RE_MARGIN, &line1);
        }
        let ghost smargin = match st.margin {
            Some(m) => Some(m),
            None => match margin_match(sline1) {
                Some((a, b)) => Some(utf8_len(sline1.subrange(a, b))),
                None => None,
            },
        };
        assert(smargin == match margin {
            Some(n) => Some(n as int),
            None => None::<int>,
        });
        let line2 = match margin {
            Some(m) => {
                let k = min_usize(m, line1.len());
                assert(line1@.skip(k as int) =~= line1@.subrange(k as int, line1@.len() as int));
                copy_range(&line1, k, line1.len())
            },
            None => line1,
        };
        let ghost sline2 = match smargin {
            Some(m) => sline1.skip(min(m, sline1.len() as int)),
            None => sline1,
        };
        assert(line2@ =~= sline2);
        if leading.is_none() {
            leading = match_len_at_start(RE_SPACE, &line2);
        }
        let ghost sleading = match st.leading {
            Some(n) => Some(n),
            None => match space_match(sline2) {
                Some((a, b)) => Some(utf8_len(sline2.subrange(a, b))),
                None => None,
            },
        };
        assert(sleading == match leading {
            Some(n) => Some(n as int),
            None => None::<int>,
        });
        let n: u128 = match leading {
            Some(n) => n,
            None => 0,
        };
        let k = min_usize(n, line2.len());
        if !all_spaces_exec(&line2, k) {
            let ls2 = string_of(line2.as_slice());
            return Err(MainError::OtherOwned(leading_spaces_message(n, ls2.as_str())));
        }
        let ghost out0 = out@;
        push_range(&mut out, &line2, k, line2.len());
        out.push('\n');
        assert(line2@.skip(k as int) =~= line2@.subrange(k as int, line2@.len() as int));
        assert(out@ =~= out0 + sline2.skip(k as int) + seq!['\n']);
        depth = d;
        i = next;
    }
    if i < sv.len() {
        assert(depth == 0);
    } else {
        assert(lines_from(sv@, i as int).len() == 0);
    }
    Ok(string_of(out.as_slice()))
}

fn extract_line(s: &str) -> (r: Result<String, MainError>)
    ensures
        match line_lines(lines_of(s@), Seq::empty(), None) {
            Ok(t) => r matches Ok(x) && x@ == t,
            Err((n, l)) => r matches Err(e) && e matches MainError::OtherOwned(m) && m@
                == leading_spaces_text(n, l),
        },
{
    let sv = chars_of(s);
    let ghost goal = line_lines(lines_of(s@), Seq::empty(), None);
    let mut out: Vec<char> = Vec::new();
    let mut leading: Option<u128> = None;
    let mut i: usize = 0;
    while i < sv.len()
        invariant
            sv@ == s@,
            i <= sv@.len(),
            goal == line_lines(lines_of(s@), Seq::empty(), None),
            goal == line_lines(
                lines_from(sv@, i as int),
                out@,
                match leading {
                    Some(n) => Some(n as int),
                    None => None,
                },
            ),
        decreases sv@.len() - i,
    {
        let (ls, le, next) = next_line(&sv, i);
        let ghost lines = lines_from(sv@, i as int);
        let ghost sl = match leading {
            Some(n) => Some(n as int),
            None => None::<int>,
        };
        let line = copy_range(&sv, ls, le);
        assert(lines[0] == line@);
        assert(lines.drop_first() =~= lines_from(sv@, next as int));
        let lstr = string_of(line.as_slice());
        match regex_find(RE_COMMENT, lstr.as_str()) {
            None => {
                return Ok(string_of(out.as_slice()));
            },
            Some((_a, e)) => {
                proof {
                    crate::text::lemma_skip_ws(line@, 0);
                    reveal_strlit("//!");
                    reveal_strlit("///");
                }
                let content = copy_range(&line, e, line.len());
                assert(content@ =~= line@.skip(e as int));
                if leading.is_none() {
                    leading = match_len_at_start(RE_SPACE, &content);
                }
                let ghost sleading = match sl {
                    Some(n) => Some(n),
                    None => match space_match(content@) {
                        Some((a2, b2)) => Some(utf8_len(content@.subrange(a2, b2))),
                        None => None,
                    },
                };
                assert(sleading == match leading {
                    Some(n) => Some(n as int),
                    None => None::<int>,
                });
                let n: u128 = match leading {
                    Some(n) => n,
                    None => 0,
                };
                let k = min_usize(n, content.len());
                if !all_spaces_exec(&content, k) {
                    return Err(MainError::OtherOwned(leading_spaces_message(n, string_of(content.as_slice()).as_str())));
                }
                let ghost out0 = out@;
                push_range(&mut out, &content, k, content.len());
                out.push('\n');
                assert(content@.skip(k as int) =~= content@.subrange(k as int, content@.len() as int));
                assert(out@ =~= out0 + content@.skip(k as int) + seq!['\n']);
            },
        }
        i = next;
    }
    assert(lines_from(sv@, i as int).len() == 0);
    Ok(string_of(out.as_slice()))
}

/// Extracts the contents of the Rust doc comment at the start of `s`: a
/// `/*!` block comment or a run of `//!` or `///` line comments.
pub fn extract_comment(s: &str) -> (r: Result<String, MainError>)
    ensures
        extract_result_is(r, extract_comment_spec(s@)),
{
    if crate::text::str_starts_with(s, "/*!") {
        proof {
            reveal_strlit("/*!");
        }
        let n = s.unicode_len();
        let rest = s.substring_char(3, n);
        let r = extract_block(rest);
        assert(rest@ =~= s@.skip(3));
        r
    } else if crate::text::str_starts_with(s, "//!") || crate::text::str_starts_with(s, "///") {
        extract_line(s)
    } else {
        Err(MainError::OtherBorrowed("no doc comment found"))
    }
}

} // verus!
