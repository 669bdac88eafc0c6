//! The input the user gives: a script file, an expression or a loop closure.
use vstd::prelude::*;
use sha1::Digest;
use crate::consts;
use crate::text::{chars_of, push_str, string_of};

verus! {

/// An input source for a script.
#[derive(Clone, Debug)]
pub enum Input {
    /// A script file: its name, absolute path, contents and base path.
    File(String, String, String, String),
    /// An expression: its text and base path.
    Expr(String, String),
    /// A loop closure: its text, whether `--count` was given, and base path.
    Loop(String, bool, String),
}

/// The "safe name" of an input.
pub open spec fn safe_name_spec(i: Input) -> Seq<char> {
    match i {
        Input::File(name, _, _, _) => name@,
        Input::Expr(..) => "expr"@,
        Input::Loop(..) => "loop"@,
    }
}

pub open spec fn is_ascii_digit(c: char) -> bool {
    '0' <= c && c <= '9'
}

pub open spec fn is_ascii_lower(c: char) -> bool {
    'a' <= c && c <= 'z'
}

pub open spec fn is_ascii_upper(c: char) -> bool {
    'A' <= c && c <= 'Z'
}

/// The ASCII lower-case letter of an upper-case one.
pub open spec fn ascii_lower(c: char) -> char {
    ((c as u8) + 32) as char
}

/// What the character `c` at index `i` of a safe name becomes in the package
/// name: a digit at the start gets an underscore before it, upper-case letters
/// become lower-case, and anything but digits, lower-case letters and `_`
/// becomes `_`, so that the name is a valid Rust identifier.
pub open spec fn package_char(i: int, c: char) -> Seq<char> {
    if i == 0 && is_ascii_digit(c) {
        seq!['_', c]
    } else if is_ascii_digit(c) || is_ascii_lower(c) || c == '_' {
        seq![c]
    } else if is_ascii_upper(c) {
        seq![ascii_lower(c)]
    } else {
        seq!['_']
    }
}

/// The package name made from a safe name.
pub open spec fn package_name_of(s: Seq<char>) -> Seq<char>
    decreases s.len(),
{
    if s.len() == 0 {
        Seq::empty()
    } else {
        package_name_of(s.drop_last()) + package_char(s.len() - 1, s.last())
    }
}

/// The characters a package name is made of.
pub open spec fn is_package_char(c: char) -> bool {
    is_ascii_digit(c) || is_ascii_lower(c) || c == '_'
}

pub proof fn lemma_package_name_chars(s: Seq<char>)
    ensures
        forall|k: int| 0 <= k < package_name_of(s).len() ==> is_package_char(#[trigger] package_name_of(s)[k]),
        s.len() > 0 ==> package_name_of(s).len() > 0 && !is_ascii_digit(package_name_of(s)[0]),
        package_name_of(s).len() >= s.len(),
        package_name_of(s).len() == s.len() + if s.len() > 0 && is_ascii_digit(s[0]) {
            1int
        } else {
            0int
        },
    decreases s.len(),
{
    if s.len() > 0 {
        lemma_package_name_chars(s.drop_last());
        let p = package_name_of(s.drop_last());
        let c = package_char(s.len() - 1, s.last());
        assert forall|k: int| 0 <= k < package_name_of(s).len() implies is_package_char(
            #[trigger] package_name_of(s)[k],
        ) by {
            if k >= p.len() {
                let u = s.last();
                if is_ascii_upper(u) && !(s.len() == 1 && is_ascii_digit(u)) {
                    assert((u as u8) + 32 >= 97 && (u as u8) + 32 <= 122);
                }
            }
        }
        if s.len() == 1 {
            assert(s.drop_last().len() == 0);
            let u = s.last();
            if is_ascii_upper(u) {
                assert((u as u8) + 32 >= 97 && (u as u8) + 32 <= 122);
            }
        } else {
            assert(package_name_of(s)[0] == p[0]);
            assert(s.drop_last()[0] == s[0]);
        }
    }
}

/// A name that is a valid Rust identifier already (lower-case ASCII letters,
/// digits and `_`, not starting with a digit) is its own package name: every
/// character of it, digits included, is kept where it stands.
pub proof fn law_identifier_is_own_package_name(s: Seq<char>)
    requires
        forall|k: int| 0 <= k < s.len() ==> is_package_char(#[trigger] s[k]),
        s.len() > 0 ==> !is_ascii_digit(s[0]),
    ensures
        package_name_of(s) == s,
    decreases s.len(),
{
    if s.len() > 0 {
        let t = s.drop_last();
        assert forall|k: int| 0 <= k < t.len() implies is_package_char(#[trigger] t[k]) by {
            assert(t[k] == s[k]);
        }
        if t.len() > 0 {
            assert(t[0] == s[0]);
        }
        law_identifier_is_own_package_name(t);
        assert(package_name_of(s) =~= s);
    }
}

/// The character with an ASCII upper-case letter made lower-case.
pub open spec fn fold_ascii_case(c: char) -> char {
    if is_ascii_upper(c) {
        ascii_lower(c)
    } else {
        c
    }
}

/// Package names do not tell ASCII letter case apart: a name and the same
/// name in lower case give the same package name.
pub proof fn law_package_name_ignores_case(s: Seq<char>)
    ensures
        package_name_of(s.map_values(|c: char| fold_ascii_case(c))) == package_name_of(s),
    decreases s.len(),
{
    if s.len() > 0 {
        let f = s.map_values(|c: char| fold_ascii_case(c));
        let t = s.drop_last();
        law_package_name_ignores_case(t);
        assert(f.drop_last() =~= t.map_values(|c: char| fold_ascii_case(c)));
        let u = s.last();
        if is_ascii_upper(u) {
            assert((u as u8) + 32 >= 97 && (u as u8) + 32 <= 122);
        }
        assert(package_char(s.len() - 1, f.last()) == package_char(s.len() - 1, u));
    }
}

/// Making a package name of a package name changes nothing.
pub proof fn law_package_name_idempotent(s: Seq<char>)
    ensures
        package_name_of(package_name_of(s)) == package_name_of(s),
{
    lemma_package_name_chars(s);
    let p = package_name_of(s);
    if p.len() > 0 {
        assert(s.len() > 0);
    }
    law_identifier_is_own_package_name(p);
}

/// The digest `sha1` computes of a sequence of bytes.
pub uninterp spec fn sha1_digest_of(data: Seq<u8>) -> Seq<u8>;

/// `Sha1::digest` of the UTF-8 bytes of `data`; a SHA-1 digest is 20 bytes.
#[verifier::external_body]
fn sha1_digest(data: &str) -> (r: Vec<u8>)
    ensures
        r@ == sha1_digest_of(utf8_bytes(data@)),
        r@.len() == 20,
{
    sha1::Sha1::digest(data.as_bytes()).to_vec()
}

/// The lower-case hexadecimal digit of a value below 16.
pub open spec fn hex_digit(n: u8) -> char {
    if n < 10 {
        ((n + 48) as u8) as char
    } else {
        ((n + 87) as u8) as char
    }
}

/// Bytes written as lower-case hexadecimal, two digits each (what `{:x}`
/// writes for a digest).
pub open spec fn lower_hex(b: Seq<u8>) -> Seq<char>
    decreases b.len(),
{
    if b.len() == 0 {
        Seq::empty()
    } else {
        lower_hex(b.drop_last()) + seq![hex_digit(b.last() / 16), hex_digit(b.last() % 16)]
    }
}

/// What the package ID of an input is computed from, given its dependencies.
pub open spec fn id_message(i: Input, deps: Seq<(Seq<char>, Seq<char>)>) -> Seq<char> {
    match i {
        Input::File(_, path, _, _) => path@,
        Input::Expr(content, _) => deps_message(deps) + content@,
        Input::Loop(content, count, _) => deps_message(deps) + "count:"@ + (if count {
            "true;"@
        } else {
            "false;"@
        }) + content@,
    }
}

/// `dep=NAME=VERSION;` for each dependency.
pub open spec fn deps_message(deps: Seq<(Seq<char>, Seq<char>)>) -> Seq<char>
    decreases deps.len(),
{
    if deps.len() == 0 {
        Seq::empty()
    } else {
        deps_message(deps.drop_last()) + "dep="@ + deps.last().0 + "="@ + deps.last().1 + ";"@
    }
}

pub open spec fn deps_view(deps: Seq<(String, String)>) -> Seq<(Seq<char>, Seq<char>)> {
    deps.map_values(|d: (String, String)| (d.0@, d.1@))
}

/// The UTF-8 encoding of a character sequence, as a `str` holds it.
pub open spec fn utf8_bytes(s: Seq<char>) -> Seq<u8> {
    vstd::utf8::encode_utf8(s)
}

/// The package ID: at most `CONTENT_DIGEST_LEN_MAX` hex digits of the SHA-1
/// digest of what identifies the input.
pub open spec fn package_id(i: Input, deps: Seq<(Seq<char>, Seq<char>)>) -> Seq<char> {
    lower_hex(sha1_digest_of(utf8_bytes(id_message(i, deps)))).take(
        consts::CONTENT_DIGEST_LEN_MAX as int,
    )
}

/// A script's package is found again by its path alone: script files at the
/// same path have the same package id, whatever they hold and whatever the
/// dependencies, so an edited script is rebuilt in the same place.
pub proof fn law_script_id_by_path(
    a: Input,
    b: Input,
    da: Seq<(Seq<char>, Seq<char>)>,
    db: Seq<(Seq<char>, Seq<char>)>,
)
    requires
        a is File,
        b is File,
        a->File_1@ == b->File_1@,
    ensures
        package_id(a, da) == package_id(b, db),
{
}

/// A loop with `--count` and the same loop without it identify themselves
/// by different messages, so that their package ids, the digests of those
/// messages, tell them apart (unless SHA-1 collides).
pub proof fn law_loop_count_in_id(a: Input, b: Input, deps: Seq<(Seq<char>, Seq<char>)>)
    requires
        a is Loop,
        b is Loop,
        a->Loop_0@ == b->Loop_0@,
        a->Loop_1 != b->Loop_1,
    ensures
        id_message(a, deps) != id_message(b, deps),
{
    reveal_strlit("true;");
    reveal_strlit("false;");
    assert(id_message(a, deps).len() != id_message(b, deps).len());
}

/// Is `c` a lower-case hexadecimal digit?
pub open spec fn is_lower_hex_char(c: char) -> bool {
    ('0' <= c && c <= '9') || ('a' <= c && c <= 'f')
}

/// Every character of the hexadecimal text of bytes is a lower-case
/// hexadecimal digit.
pub proof fn lemma_lower_hex_chars(b: Seq<u8>)
    ensures
        forall|k: int| 0 <= k < lower_hex(b).len() ==> is_lower_hex_char(#[trigger] lower_hex(b)[k]),
    decreases b.len(),
{
    if b.len() > 0 {
        lemma_lower_hex_chars(b.drop_last());
        let x = b.last();
        let hi = x / 16;
        let lo = x % 16;
        assert(is_lower_hex_char(hex_digit(hi)));
        assert(is_lower_hex_char(hex_digit(lo)));
        let r = lower_hex(b);
        let p = lower_hex(b.drop_last());
        assert forall|k: int| 0 <= k < r.len() implies is_lower_hex_char(#[trigger] r[k]) by {
            if k < p.len() {
                assert(r[k] == p[k]);
            }
        }
    }
}

/// An expression's package depends on its text and its dependencies only:
/// the same expression with the same dependencies finds the same package,
/// whatever the directory it is run from.
pub proof fn law_expr_id(a: Input, b: Input, deps: Seq<(Seq<char>, Seq<char>)>)
    requires
        a is Expr,
        b is Expr,
        a->Expr_0@ == b->Expr_0@,
    ensures
        package_id(a, deps) == package_id(b, deps),
{
}

fn hex_digit_exec(n: u8) -> (r: char)
    requires
        n < 16,
    ensures
        r == hex_digit(n),
{
    if n < 10 {
        (n + 48) as char
    } else {
        (n + 87) as char
    }
}

fn lower_hex_exec(b: &Vec<u8>) -> (r: Vec<char>)
    ensures
        r@ == lower_hex(b@),
{
    let mut r: Vec<char> = Vec::new();
    let mut i: usize = 0;
    assert(b@.take(0) =~= Seq::<u8>::empty());
    while i < b.len()
        invariant
            i <= b@.len(),
            r@ == lower_hex(b@.take(i as int)),
        decreases b@.len() - i,
    {
        let x = b[i];
        r.push(hex_digit_exec(x / 16));
        r.push(hex_digit_exec(x % 16));
        assert(b@.take(i + 1).drop_last() =~= b@.take(i as int));
        i = i + 1;
    }
    assert(b@.take(i as int) =~= b@);
    r
}

impl Input {
    /// The path to the script, if it has one.
    pub fn path(&self) -> (r: Option<&String>)
        ensures
            match self {
                Input::File(_, path, _, _) => r == Some(path),
                _ => r is None,
            },
    {
        match self {
            Input::File(_, path, _, _) => Some(path),
            Input::Expr(..) => None,
            Input::Loop(..) => None,
        }
    }

    /// The "safe name" of the input, which names the generated source file.
    pub fn safe_name(&self) -> (r: &str)
        ensures
            r@ == safe_name_spec(*self),
    {
        match self {
            Input::File(name, _, _, _) => name.as_str(),
            Input::Expr(..) => "expr",
            Input::Loop(..) => "loop",
        }
    }

    /// The package name of the input, a valid Rust identifier: made of
    /// digits, lower-case letters and `_`, not starting with a digit, one
    /// character for each of the safe name's and one more where that starts
    /// with a digit.
    pub fn package_name(&self) -> (r: String)
        ensures
            r@ == package_name_of(safe_name_spec(*self)),
            forall|k: int| 0 <= k < r@.len() ==> is_package_char(#[trigger] r@[k]),
            safe_name_spec(*self).len() > 0 ==> r@.len() > 0 && !is_ascii_digit(r@[0]),
            r@.len() == safe_name_spec(*self).len() + if safe_name_spec(*self).len() > 0
                && is_ascii_digit(safe_name_spec(*self)[0]) {
                1int
            } else {
                0int
            },
            (forall|k: int|
                0 <= k < safe_name_spec(*self).len() ==> is_package_char(
                    #[trigger] safe_name_spec(*self)[k],
                )) && (safe_name_spec(*self).len() > 0 ==> !is_ascii_digit(
                safe_name_spec(*self)[0],
            )) ==> r@ == safe_name_spec(*self),
    {
        let name = chars_of(self.safe_name());
        let ghost s = name@;
        let mut r: Vec<char> = Vec::new();
        let mut i: usize = 0;
        assert(s.take(0) =~= Seq::<char>::empty());
        while i < name.len()
            invariant
                s == name@,
                i <= s.len(),
                r@ == package_name_of(s.take(i as int)),
            decreases s.len() - i,
        {
            let c = name[i];
            if i == 0 && '0' <= c && c <= '9' {
                r.push('_');
                r.push(c);
            } else if ('0' <= c && c <= '9') || ('a' <= c && c <= 'z') || c == '_' {
                r.push(c);
            } else if 'A' <= c && c <= 'Z' {
                let l = ((c as u8) + 32) as char;
                r.push(l);
            } else {
                r.push('_');
            }
            assert(s.take(i + 1).drop_last() =~= s.take(i as int));
            assert(r@ =~= package_name_of(s.take(i + 1)));
            i = i + 1;
        }
        assert(s.take(i as int) =~= s);
        proof {
            lemma_package_name_chars(s);
            if (forall|k: int| 0 <= k < s.len() ==> is_package_char(#[trigger] s[k])) && (s.len()
                > 0 ==> !is_ascii_digit(s[0])) {
                law_identifier_is_own_package_name(s);
            }
        }
        string_of(r.as_slice())
    }

    /// The base directory for resolving relative paths.
    pub fn base_path(&self) -> (r: &String)
        ensures
            r == match self {
                Input::File(_, _, _, b) => b,
                Input::Expr(_, b) => b,
                Input::Loop(_, _, b) => b,
            },
    {
        match self {
            Input::File(_, _, _, base_path) => base_path,
            Input::Expr(_, base_path) => base_path,
            Input::Loop(_, _, base_path) => base_path,
        }
    }

    /// The package ID of the input: the name of the cache folder into which
    /// its Cargo package is generated.
    pub fn compute_id(&self, deps: &Vec<(String, String)>) -> (r: String)
        ensures
            r@ == package_id(*self, deps_view(deps@)),
            r@.len() == consts::CONTENT_DIGEST_LEN_MAX,
            forall|k: int| 0 <= k < r@.len() ==> is_lower_hex_char(#[trigger] r@[k]),
    {
        let mut msg: Vec<char> = Vec::new();
        match self {
            Input::File(_, path, _, _) => {
                push_str(&mut msg, path.as_str());
            },
            Input::Expr(content, _) => {
                push_deps(&mut msg, deps);
                push_str(&mut msg, content.as_str());
            },
            Input::Loop(content, count, _) => {
                push_deps(&mut msg, deps);
                push_str(&mut msg, "count:");
                if *count {
                    push_str(&mut msg, "true;");
                } else {
                    push_str(&mut msg, "false;");
                }
                push_str(&mut msg, content.as_str());
            },
        }
        assert(msg@ =~= id_message(*self, deps_view(deps@)));
        let text = string_of(msg.as_slice());
        let digest = sha1_digest(text.as_str());
        let hex = lower_hex_exec(&digest);
        proof {
            lemma_lower_hex_len(digest@);
            lemma_lower_hex_chars(digest@);
        }
        let mut id: Vec<char> = Vec::new();
        crate::text::push_range(&mut id, &hex, 0, consts::CONTENT_DIGEST_LEN_MAX);
        assert(id@ =~= hex@.take(consts::CONTENT_DIGEST_LEN_MAX as int));
        string_of(id.as_slice())
    }
}

pub proof fn lemma_lower_hex_len(b: Seq<u8>)
    ensures
        lower_hex(b).len() == 2 * b.len(),
    decreases b.len(),
{
    if b.len() > 0 {
        lemma_lower_hex_len(b.drop_last());
    }
}

fn push_deps(msg: &mut Vec<char>, deps: &Vec<(String, String)>)
    ensures
        final(msg)@ == old(msg)@ + deps_message(deps_view(deps@)),
{
    let ghost m0 = msg@;
    let ghost dv = deps_view(deps@);
    let mut i: usize = 0;
    assert(dv.take(0) =~= Seq::<(Seq<char>, Seq<char>)>::empty());
    while i < deps.len()
        invariant
            dv == deps_view(deps@),
            i <= deps@.len(),
            msg@ == m0 + deps_message(dv.take(i as int)),
        decreases deps@.len() - i,
    {
        let ghost before = msg@;
        push_str(msg, "dep=");
        push_str(msg, deps[i].0.as_str());
        push_str(msg, "=");
        push_str(msg, deps[i].1.as_str());
        push_str(msg, ";");
        assert(dv.take(i + 1).drop_last() =~= dv.take(i as int));
        assert(dv.take(i + 1).last() == (deps@[i as int].0@, deps@[i as int].1@));
        assert(msg@ =~= before + "dep="@ + deps@[i as int].0@ + "="@ + deps@[i as int].1@ + ";"@);
        i = i + 1;
    }
    assert(dv.take(i as int) =~= dv);
}

} // verus!
