//! Character-level text helpers shared by the rest of the library.
//!
//! Text is modelled as `Seq<char>`; the executable helpers work on `Vec<char>`
//! and on `&str` through vstd's `StrSliceExecFns`.
use vstd::prelude::*;

verus! {

/// The Unicode `White_Space` property, which is what `char::is_whitespace`
/// tests and what the regex class `\s` matches.
pub open spec fn is_white_space(c: char) -> bool {
    let u = c as u32;
    ||| (0x9 <= u && u <= 0xd)
    ||| u == 0x20
    ||| u == 0x85
    ||| u == 0xa0
    ||| u == 0x1680
    ||| (0x2000 <= u && u <= 0x200a)
    ||| u == 0x2028
    ||| u == 0x2029
    ||| u == 0x202f
    ||| u == 0x205f
    ||| u == 0x3000
}

pub fn is_white_space_char(c: char) -> (r: bool)
    ensures
        r == is_white_space(c),
{
    let u = c as u32;
    (0x9 <= u && u <= 0xd) || u == 0x20 || u == 0x85 || u == 0xa0 || u == 0x1680 || (0x2000 <= u
        && u <= 0x200a) || u == 0x2028 || u == 0x2029 || u == 0x202f || u == 0x205f || u == 0x3000
}

/// Index of the first character at or after `i` that is not white space
/// (the length of `s` when there is none).
pub open spec fn skip_ws(s: Seq<char>, i: int) -> int
    decreases s.len() - i,
{
    if i < 0 || i >= s.len() {
        if i < 0 { 0 } else { s.len() as int }
    } else if is_white_space(s[i]) {
        skip_ws(s, i + 1)
    } else {
        i
    }
}

pub proof fn lemma_skip_ws(s: Seq<char>, i: int)
    requires
        0 <= i <= s.len(),
    ensures
        i <= skip_ws(s, i) <= s.len(),
        forall|k: int| i <= k < skip_ws(s, i) ==> is_white_space(#[trigger] s[k]),
        skip_ws(s, i) < s.len() ==> !is_white_space(s[skip_ws(s, i)]),
    decreases s.len() - i,
{
    if i < s.len() && is_white_space(s[i]) {
        lemma_skip_ws(s, i + 1);
    }
}

/// Does `p` occur in `s` at index `i`?
pub open spec fn occurs_at(s: Seq<char>, i: int, p: Seq<char>) -> bool {
    0 <= i && i + p.len() <= s.len() && s.subrange(i, i + p.len()) == p
}

pub fn skip_ws_exec(s: &Vec<char>, i: usize) -> (r: usize)
    requires
        i <= s@.len(),
    ensures
        r == skip_ws(s@, i as int),
{
    let mut j = i;
    proof { lemma_skip_ws(s@, i as int); }
    while j < s.len() && is_white_space_char(s[j])
        invariant
            i <= j <= s@.len(),
            skip_ws(s@, i as int) == skip_ws(s@, j as int),
        decreases s@.len() - j,
    {
        j = j + 1;
    }
    j
}

pub fn occurs_at_exec(s: &Vec<char>, i: usize, p: &str) -> (r: bool)
    requires
        i <= s@.len(),
    ensures
        r == occurs_at(s@, i as int, p@),
{
    let n = p.unicode_len();
    if n > s.len() - i {
        return false;
    }
    let mut k: usize = 0;
    while k < n
        invariant
            n == p@.len(),
            i <= s@.len(),
            i + n <= s.len(),
            k <= n,
            forall|t: int| 0 <= t < k ==> s@[i + t] == p@[t],
        decreases n - k,
    {
        if s[i + k] != p.get_char(k) {
            assert(s@.subrange(i as int, i + n)[k as int] != p@[k as int]);
            return false;
        }
        k = k + 1;
    }
    assert(s@.subrange(i as int, i + n) =~= p@);
    true
}

/// The characters of a string slice, as a vector.
pub fn chars_of(s: &str) -> (r: Vec<char>)
    ensures
        r@ == s@,
{
    let n = s.unicode_len();
    let mut r: Vec<char> = Vec::new();
    let mut i: usize = 0;
    while i < n
        invariant
            n == s@.len(),
            i <= n,
            r@ == s@.take(i as int),
        decreases n - i,
    {
        r.push(s.get_char(i));
        i = i + 1;
        assert(r@ =~= s@.take(i as int));
    }
    assert(s@.take(n as int) =~= s@);
    r
}

/// A string made of the given characters.
#[verifier::external_body]
pub(crate) fn string_of(v: &[char]) -> (r: String)
    ensures
        r@ == v@,
{
    String::from_iter(v)
}

/// Appends the characters of `p` to `v`.
pub fn push_str(v: &mut Vec<char>, p: &str)
    ensures
        final(v)@ == old(v)@ + p@,
{
    let n = p.unicode_len();
    let mut k: usize = 0;
    let ghost v0 = v@;
    while k < n
        invariant
            n == p@.len(),
            k <= n,
            v@ == v0 + p@.take(k as int),
        decreases n - k,
    {
        v.push(p.get_char(k));
        k = k + 1;
        assert(v@ =~= v0 + p@.take(k as int));
    }
    assert(p@.take(n as int) =~= p@);
}

/// Appends `s[from..to]` to `v`.
pub fn push_range(v: &mut Vec<char>, s: &Vec<char>, from: usize, to: usize)
    requires
        from <= to <= s@.len(),
    ensures
        final(v)@ == old(v)@ + s@.subrange(from as int, to as int),
{
    let mut k: usize = from;
    let ghost v0 = v@;
    while k < to
        invariant
            from <= k <= to,
            to <= s@.len(),
            v@ == v0 + s@.subrange(from as int, k as int),
        decreases to - k,
    {
        v.push(s[k]);
        k = k + 1;
        assert(v@ =~= v0 + s@.subrange(from as int, k as int));
    }
}

} // verus!

verus! {

/// Index of the first `c` at or after `i` in `s` (the length of `s` when there is none).
pub open spec fn find_char(s: Seq<char>, c: char, i: int) -> int
    decreases s.len() - i,
{
    if i < 0 {
        find_char(s, c, 0)
    } else if i >= s.len() {
        s.len() as int
    } else if s[i] == c {
        i
    } else {
        find_char(s, c, i + 1)
    }
}

pub proof fn lemma_find_char(s: Seq<char>, c: char, i: int)
    requires
        0 <= i <= s.len(),
    ensures
        i <= find_char(s, c, i) <= s.len(),
        forall|k: int| i <= k < find_char(s, c, i) ==> #[trigger] s[k] != c,
        find_char(s, c, i) < s.len() ==> s[find_char(s, c, i)] == c,
    decreases s.len() - i,
{
    if i < s.len() && s[i] != c {
        lemma_find_char(s, c, i + 1);
    }
}

pub fn find_char_exec(s: &Vec<char>, c: char, i: usize) -> (r: usize)
    requires
        i <= s@.len(),
    ensures
        r == find_char(s@, c, i as int),
{
    let mut j = i;
    proof { lemma_find_char(s@, c, i as int); }
    while j < s.len() && s[j] != c
        invariant
            i <= j <= s@.len(),
            find_char(s@, c, i as int) == find_char(s@, c, j as int),
        decreases s@.len() - j,
    {
        j = j + 1;
    }
    j
}

/// A line as `str::lines` yields it: a trailing `'\r'` is dropped from a line
/// that was ended by `'\n'`.
pub open spec fn strip_cr(l: Seq<char>) -> Seq<char> {
    if l.len() > 0 && l.last() == '\r' {
        l.drop_last()
    } else {
        l
    }
}

/// The lines of `s` from index `i` on, as `str::lines` splits them: at `'\n'`
/// and at `"\r\n"`, with the final line ending optional.
pub open spec fn lines_from(s: Seq<char>, i: int) -> Seq<Seq<char>>
    decreases s.len() - i,
{
    if i < 0 || i >= s.len() {
        Seq::empty()
    } else {
        let j = find_char(s, '\n', i);
        if j < s.len() {
            proof {
                lemma_find_char(s, '\n', i);
            }
            seq![strip_cr(s.subrange(i, j))] + lines_from(s, j + 1)
        } else {
            seq![s.subrange(i, s.len() as int)]
        }
    }
}

/// The lines of `s`, as `str::lines` yields them.
pub open spec fn lines_of(s: Seq<char>) -> Seq<Seq<char>> {
    lines_from(s, 0)
}

/// Finding a character past a prefix is finding it in the rest.
pub proof fn lemma_find_char_shift(pre: Seq<char>, s: Seq<char>, c: char, i: int)
    requires
        0 <= i <= s.len(),
    ensures
        find_char(pre + s, c, pre.len() + i) == pre.len() + find_char(s, c, i),
    decreases s.len() - i,
{
    let t = pre + s;
    if i < s.len() {
        assert(t[pre.len() + i] == s[i]);
        if s[i] != c {
            lemma_find_char_shift(pre, s, c, i + 1);
        }
    }
}

/// The lines past a prefix that ends a line are the lines of the rest.
pub proof fn lemma_lines_shift(pre: Seq<char>, s: Seq<char>, i: int)
    requires
        0 <= i <= s.len(),
    ensures
        lines_from(pre + s, pre.len() + i) == lines_from(s, i),
    decreases s.len() - i,
{
    let t = pre + s;
    if i < s.len() {
        lemma_find_char_shift(pre, s, '\n', i);
        lemma_find_char(s, '\n', i);
        let j = find_char(s, '\n', i);
        if j < s.len() {
            assert(t.subrange(pre.len() + i, pre.len() + j) =~= s.subrange(i, j));
            lemma_lines_shift(pre, s, j + 1);
        } else {
            assert(t.subrange(pre.len() + i, t.len() as int) =~= s.subrange(i, s.len() as int));
        }
    }
}

/// The line of `s` that starts at `i < s.len()`: its bounds (without the line
/// ending) and the index where the next line starts.
pub fn next_line(s: &Vec<char>, i: usize) -> (r: (usize, usize, usize))
    requires
        i < s@.len(),
    ensures
        i <= r.0 <= r.1 <= s@.len(),
        r.0 == i,
        r.1 <= r.2,
        i < r.2 <= s@.len(),
        lines_from(s@, i as int) == seq![s@.subrange(r.0 as int, r.1 as int)] + lines_from(
            s@,
            r.2 as int,
        ),
{
    let j = find_char_exec(s, '\n', i);
    proof { lemma_find_char(s@, '\n', i as int); }
    if j < s.len() {
        let e = if j > i && s[j - 1] == '\r' { j - 1 } else { j };
        assert(strip_cr(s@.subrange(i as int, j as int)) =~= s@.subrange(i as int, e as int));
        (i, e, j + 1)
    } else {
        assert(lines_from(s@, j as int) =~= Seq::<Seq<char>>::empty());
        assert(lines_from(s@, i as int) =~= seq![s@.subrange(i as int, j as int)]);
        (i, j, j)
    }
}

} // verus!

verus! {

/// Do the two strings hold the same characters?
pub fn str_equal(a: &str, b: &str) -> (r: bool)
    ensures
        r == (a@ == b@),
{
    let av = chars_of(a);
    let bv = chars_of(b);
    if av.len() != bv.len() {
        return false;
    }
    let mut i: usize = 0;
    while i < av.len()
        invariant
            av@ == a@,
            bv@ == b@,
            av@.len() == bv@.len(),
            i <= av@.len(),
            forall|t: int| 0 <= t < i ==> av@[t] == bv@[t],
        decreases av@.len() - i,
    {
        if av[i] != bv[i] {
            return false;
        }
        i = i + 1;
    }
    assert(av@ =~= bv@);
    true
}

/// Does `s` start with `p`?
pub fn str_starts_with(s: &str, p: &str) -> (r: bool)
    ensures
        r == occurs_at(s@, 0, p@),
{
    let sv = chars_of(s);
    occurs_at_exec(&sv, 0, p)
}

} // verus!

verus! {

/// `str::trim`: `s` without white space at either end.
pub open spec fn trim_spec(s: Seq<char>) -> Seq<char> {
    let a = skip_ws(s, 0);
    s.subrange(a, trim_end_index(s, a))
}

/// The end of `s` without its trailing white space, not before `a`.
pub open spec fn trim_end_index(s: Seq<char>, a: int) -> int
    decreases s.len(),
{
    if s.len() == 0 || s.len() as int <= a {
        a
    } else if is_white_space(s.last()) {
        trim_end_index(s.drop_last(), a)
    } else {
        s.len() as int
    }
}

pub proof fn lemma_trim_end_index(s: Seq<char>, a: int)
    requires
        0 <= a <= s.len(),
    ensures
        a <= trim_end_index(s, a) <= s.len(),
    decreases s.len(),
{
    if s.len() as int > a && is_white_space(s.last()) {
        lemma_trim_end_index(s.drop_last(), a);
    }
}

/// The pieces of `s` between the occurrences of `c` (`str::split`).
pub open spec fn split_spec(s: Seq<char>, c: char) -> Seq<Seq<char>>
    decreases s.len(),
{
    let j = find_char(s, c, 0);
    if j < s.len() {
        proof {
            lemma_find_char(s, c, 0);
        }
        seq![s.take(j)] + split_spec(s.skip(j + 1), c)
    } else {
        seq![s]
    }
}

/// `s` without leading white space (`str::trim_start`).
pub fn trim_start_chars(s: &Vec<char>) -> (r: Vec<char>)
    ensures
        r@ == s@.skip(skip_ws(s@, 0)),
{
    let a = skip_ws_exec(s, 0);
    proof { lemma_skip_ws(s@, 0); }
    let mut r = Vec::new();
    push_range(&mut r, s, a, s.len());
    assert(r@ =~= s@.skip(a as int));
    r
}

/// `s` without white space at either end (`str::trim`).
pub fn trim_chars(s: &Vec<char>) -> (r: Vec<char>)
    ensures
        r@ == trim_spec(s@),
{
    let a = skip_ws_exec(s, 0);
    proof { lemma_skip_ws(s@, 0); }
    let mut e = s.len();
    proof { lemma_trim_end_index(s@, a as int); }
    assert(s@.take(e as int) =~= s@);
    while e > a && is_white_space_char(s[e - 1])
        invariant
            a <= e <= s@.len(),
            trim_end_index(s@, a as int) == trim_end_index(s@.take(e as int), a as int),
        decreases e,
    {
        assert(s@.take(e as int).drop_last() =~= s@.take(e - 1));
        e = e - 1;
    }
    assert(trim_end_index(s@.take(e as int), a as int) == e);
    let mut r = Vec::new();
    push_range(&mut r, s, a, e);
    assert(r@ =~= trim_spec(s@));
    r
}

} // verus!
