//! Template support: `#{name}` placeholders and the built-in templates.
use vstd::prelude::*;
use crate::consts;
use crate::error::MainError;
use crate::patterns::{
    find_placeholder, ident_run_end, is_ident_char, is_ident_start, placeholder_at, regex_find,
    sub_match, RE_SUB,
};
use crate::text::{chars_of, push_range, push_str, str_equal, string_of};

verus! {

pub proof fn lemma_ident_run_end(t: Seq<char>, i: int)
    requires
        0 <= i <= t.len(),
    ensures
        i <= ident_run_end(t, i) <= t.len(),
        forall|k: int| i <= k < ident_run_end(t, i) ==> is_ident_char(#[trigger] t[k]),
    decreases t.len() - i,
{
    if i < t.len() && is_ident_char(t[i]) {
        lemma_ident_run_end(t, i + 1);
    }
}

pub proof fn lemma_find_placeholder(t: Seq<char>, i: int)
    requires
        0 <= i <= t.len(),
    ensures
        i <= find_placeholder(t, i) <= t.len(),
        find_placeholder(t, i) < t.len() ==> placeholder_at(t, find_placeholder(t, i)),
    decreases t.len() - i,
{
    if i < t.len() && !placeholder_at(t, i) {
        lemma_find_placeholder(t, i + 1);
    }
}

/// What a placeholder match in `t` stands for: `(start, end, name)`.
pub proof fn lemma_sub_match(t: Seq<char>)
    ensures
        sub_match(t) matches Some((a, b)) ==> 0 <= a && a + 4 <= b && b <= t.len() && t[b - 1]
            == '}',
{
    lemma_find_placeholder(t, 0);
    let p = find_placeholder(t, 0);
    if p < t.len() {
        lemma_ident_run_end(t, p + 3);
    }
}

/// A name a placeholder can have: a letter or `_`, then letters, digits and
/// `_`.
pub open spec fn is_placeholder_name(n: Seq<char>) -> bool {
    &&& n.len() > 0
    &&& is_ident_start(n[0])
    &&& forall|i: int| 0 < i < n.len() ==> is_ident_char(#[trigger] n[i])
}

proof fn lemma_ident_run_to(t: Seq<char>, i: int, j: int)
    requires
        0 <= i <= j < t.len(),
        forall|k: int| i <= k < j ==> is_ident_char(#[trigger] t[k]),
        !is_ident_char(t[j]),
    ensures
        ident_run_end(t, i) == j,
    decreases j - i,
{
    if i < j {
        lemma_ident_run_to(t, i + 1, j);
    }
}

/// A value is put in as it is: expanding the placeholder for a name with a
/// value gives the value, placeholders in the value included.
pub proof fn law_value_put_in_verbatim(n: Seq<char>, v: Seq<char>)
    requires
        is_placeholder_name(n),
    ensures
        expand_spec("#{"@ + n + "}"@, seq![(n, v)]) == Ok::<Seq<char>, Seq<char>>(v),
{
    reveal_strlit("#{");
    reveal_strlit("}");
    let t = "#{"@ + n + "}"@;
    let e: int = n.len() as int + 2;
    assert(t[0] == '#' && t[1] == '{' && t[2] == n[0] && t[e] == '}');
    assert forall|k: int| 3 <= k < e implies is_ident_char(#[trigger] t[k]) by {
        assert(t[k] == n[k - 2]);
    }
    lemma_ident_run_to(t, 3, e);
    assert(placeholder_at(t, 0));
    assert(t.skip(0) =~= t);
    assert(find_placeholder(t, 0) == 0);
    assert(sub_match(t) == Some((0int, e + 1)));
    assert(t.subrange(2, e) =~= n);
    let tail = t.skip(e + 1);
    assert(tail =~= Seq::<char>::empty());
    assert(find_placeholder(tail, 0) == 0);
    assert(sub_match(tail) is None);
    assert(expand_from(t, e + 1, seq![(n, v)]) == Ok::<Seq<char>, Seq<char>>(tail));
    assert(t.subrange(0, 0) + v + tail =~= v);
}

/// The value given for `name`, if any (the first one given).
pub open spec fn sub_lookup(subs: Seq<(Seq<char>, Seq<char>)>, name: Seq<char>) -> Option<Seq<char>>
    decreases subs.len(),
{
    if subs.len() == 0 {
        None
    } else if subs[0].0 == name {
        Some(subs[0].1)
    } else {
        sub_lookup(subs.drop_first(), name)
    }
}

/// The template `src` from index `p` on, with each placeholder `#{name}`
/// replaced by the value given for `name`; fails with the first name that has
/// no value.
pub open spec fn expand_from(src: Seq<char>, p: int, subs: Seq<(Seq<char>, Seq<char>)>) -> Result<
    Seq<char>,
    Seq<char>,
>
    decreases src.len() - p,
{
    if p < 0 || p > src.len() {
        Ok(Seq::empty())
    } else {
        match sub_match(src.skip(p)) {
            None => Ok(src.skip(p)),
            Some((a, b)) => {
                proof {
                    lemma_sub_match(src.skip(p));
                }
                let name = src.subrange(p + a + 2, p + b - 1);
                match sub_lookup(subs, name) {
                    None => Err(name),
                    Some(v) => match expand_from(src, p + b, subs) {
                        Ok(rest) => Ok(src.subrange(p, p + a) + v + rest),
                        Err(e) => Err(e),
                    },
                }
            },
        }
    }
}

/// The template with its placeholders replaced.
pub open spec fn expand_spec(src: Seq<char>, subs: Seq<(Seq<char>, Seq<char>)>) -> Result<
    Seq<char>,
    Seq<char>,
> {
    expand_from(src, 0, subs)
}

pub open spec fn subs_view(subs: Seq<(&str, &str)>) -> Seq<(Seq<char>, Seq<char>)> {
    subs.map_values(|e: (&str, &str)| (e.0@, e.1@))
}

/// The message of the error for an unknown placeholder name.
pub open spec fn unknown_sub_message(name: Seq<char>) -> Seq<char> {
    "substitution `"@ + name + "` in template is unknown"@
}

fn find_sub<'a, 'b>(subs: &'b Vec<(&'a str, &'a str)>, name: &str) -> (r: Option<&'a str>)
    ensures
        match sub_lookup(subs_view(subs@), name@) {
            Some(v) => r matches Some(x) && x@ == v,
            None => r is None,
        },
{
    let ghost sv = subs_view(subs@);
    let mut i: usize = 0;
    assert(sv.skip(0) =~= sv);
    while i < subs.len()
        invariant
            sv == subs_view(subs@),
            i <= subs@.len(),
            sub_lookup(sv, name@) == sub_lookup(sv.skip(i as int), name@),
        decreases subs@.len() - i,
    {
        assert(sv.skip(i as int).drop_first() =~= sv.skip(i + 1));
        assert(sv.skip(i as int)[0] == (subs@[i as int].0@, subs@[i as int].1@));
        if str_equal(subs[i].0, name) {
            return Some(subs[i].1);
        }
        i = i + 1;
    }
    None
}

/// Replaces each placeholder `#{name}` of the template `src` with the value
/// `subs` gives for `name`.
pub fn expand(src: &str, subs: &Vec<(&str, &str)>) -> (r: Result<String, MainError>)
    ensures
        match expand_spec(src@, subs_view(subs@)) {
            Ok(t) => r matches Ok(x) && x@ == t,
            Err(name) => r matches Err(e) && e matches MainError::OtherOwned(m) && m@
                == unknown_sub_message(name),
        },
{
    let sv = chars_of(src);
    let ghost subv = subs_view(subs@);
    let mut out: Vec<char> = Vec::new();
    let mut p: usize = 0;
    assert(sv@.skip(0) =~= sv@);
    loop
        invariant
            sv@ == src@,
            subv == subs_view(subs@),
            p <= sv@.len(),
            expand_spec(src@, subv) == match expand_from(sv@, p as int, subv) {
                Ok(rest) => Ok(out@ + rest),
                Err(e) => Err(e),
            },
        decreases sv@.len() - p,
    {
        let mut rest: Vec<char> = Vec::new();
        push_range(&mut rest, &sv, p, sv.len());
        assert(rest@ =~= sv@.skip(p as int));
        let rs = string_of(rest.as_slice());
        match regex_find(RE_SUB, rs.as_str()) {
            None => {
                push_range(&mut out, &sv, p, sv.len());
                assert(sv@.subrange(p as int, sv@.len() as int) =~= sv@.skip(p as int));
                return Ok(string_of(out.as_slice()));
            },
            Some((a, b)) => {
                proof {
                    lemma_sub_match(sv@.skip(p as int));
                }
                let mut name_v: Vec<char> = Vec::new();
                push_range(&mut name_v, &sv, p + a + 2, p + b - 1);
                let name = string_of(name_v.as_slice());
                assert(name@ =~= sv@.subrange(p + a + 2, p + b - 1));
                match find_sub(subs, name.as_str()) {
                    None => {
                        let mut m: Vec<char> = Vec::new();
                        push_str(&mut m, "substitution `");
                        push_str(&mut m, name.as_str());
                        push_str(&mut m, "` in template is unknown");
                        return Err(MainError::OtherOwned(string_of(m.as_slice())));
                    },
                    Some(v) => {
                        let ghost out0 = out@;
                        let ghost pre = sv@.subrange(p as int, p + a);
                        push_range(&mut out, &sv, p, p + a);
                        push_str(&mut out, v);
                        assert(out@ =~= out0 + pre + v@);
                        proof {
                            match expand_from(sv@, p + b, subv) {
                                Ok(r) => {
                                    assert(out0 + (pre + v@ + r) =~= out0 + pre + v@ + r);
                                },
                                Err(_) => {},
                            }
                        }
                        p = p + b;
                    },
                }
            },
        }
    }
}

/// The built-in template of the given name, if there is one.
pub fn builtin_template(name: &str) -> (r: Option<&'static str>)
    ensures
        r == builtin_template_spec(name@),
{
    if str_equal(name, "expr") {
        Some(consts::EXPR_TEMPLATE)
    } else if str_equal(name, "file") {
        Some(consts::FILE_TEMPLATE)
    } else if str_equal(name, "loop") {
        Some(consts::LOOP_TEMPLATE)
    } else if str_equal(name, "loop-count") {
        Some(consts::LOOP_COUNT_TEMPLATE)
    } else {
        None
    }
}

/// The built-in templates: `expr`, `file`, `loop` and `loop-count`.
pub open spec fn builtin_template_spec(name: Seq<char>) -> Option<&'static str> {
    if name == "expr"@ {
        Some(consts::EXPR_TEMPLATE)
    } else if name == "file"@ {
        Some(consts::FILE_TEMPLATE)
    } else if name == "loop"@ {
        Some(consts::LOOP_TEMPLATE)
    } else if name == "loop-count"@ {
        Some(consts::LOOP_COUNT_TEMPLATE)
    } else {
        None
    }
}

/// The error for a template that cannot be found.
pub open spec fn no_template_message(name: Seq<char>) -> Seq<char> {
    "No such template: "@ + name
}

/// Attempts to locate the contents of the template with the given name;
/// only the built-in templates exist, any other name is an error.
pub fn get_template(name: &str) -> (r: Result<&'static str, MainError>)
    ensures
        match builtin_template_spec(name@) {
            Some(t) => r == Ok::<&'static str, MainError>(t),
            None => r matches Err(e) && e matches MainError::OtherOwned(m) && m@
                == no_template_message(name@),
        },
{
    match builtin_template(name) {
        Some(text) => Ok(text),
        None => {
            let mut v: Vec<char> = Vec::new();
            push_str(&mut v, "No such template: ");
            push_str(&mut v, name);
            Err(MainError::OtherOwned(string_of(v.as_slice())))
        },
    }
}

} // verus!
