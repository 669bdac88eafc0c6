//! File system paths, held as `/`-separated strings.
use vstd::prelude::*;
use crate::text::{chars_of, push_str, string_of};

verus! {

/// A path is relative unless it starts at the root.
pub open spec fn path_is_relative(p: Seq<char>) -> bool {
    !(p.len() > 0 && p[0] == '/')
}

/// `base` joined with `p`: `p` itself when it is absolute, else `p` after
/// `base` with one separator between them.
pub open spec fn join_path(base: Seq<char>, p: Seq<char>) -> Seq<char> {
    if !path_is_relative(p) {
        p
    } else if base.len() == 0 || base.last() == '/' {
        base + p
    } else {
        base + "/"@ + p
    }
}

pub fn is_relative(p: &str) -> (r: bool)
    ensures
        r == path_is_relative(p@),
{
    !(p.unicode_len() > 0 && p.get_char(0) == '/')
}

/// `base` joined with `p`.
pub fn join(base: &str, p: &str) -> (r: String)
    ensures
        r@ == join_path(base@, p@),
{
    if !is_relative(p) {
        return p.to_owned();
    }
    let mut v = chars_of(base);
    let n = v.len();
    if !(n == 0 || v[n - 1] == '/') {
        v.push('/');
    }
    push_str(&mut v, p);
    proof {
        reveal_strlit("/");
    }
    assert(v@ =~= join_path(base@, p@));
    string_of(v.as_slice())
}

} // verus!
