//! What to do with the input: the dependencies and prelude it is built with,
//! the package it becomes, and the commands that build and run it.
use vstd::prelude::*;
use crate::arguments::Args;
use crate::build_kind::BuildKind;
use crate::error::MainError;
use crate::input::{deps_view, package_id, package_name_of, safe_name_spec, Input};
use crate::merge::table_extend;
use crate::package::{split_error_is, split_input, split_input_spec};
use crate::paths::{join, join_path};
use crate::table::{
    key_less, lemma_table_insert_at, lemma_table_insert_sorted, table_insert, table_lookup,
};
use crate::text::{chars_of, find_char, find_char_exec, lemma_find_char, push_range, push_str, string_of};
use crate::toml_model::{key_lt, keys_sorted};

verus! {

/// A dependency argument split into name and version: `name=version`, or
/// `name` alone for any version (`*`).
pub open spec fn dep_parts(d: Seq<char>) -> (Seq<char>, Seq<char>) {
    let j = find_char(d, '=', 0);
    if j < d.len() {
        (d.take(j), d.skip(j + 1))
    } else {
        (d, "*"@)
    }
}

/// Why the dependency arguments are refused.
pub enum DepError {
    EmptyName,
    EmptyVersion,
    Duplicate(Seq<char>),
}

/// Does some dependency of `seen` have the name `n`?
pub open spec fn has_name(seen: Seq<(Seq<char>, Seq<char>)>, n: Seq<char>) -> bool {
    exists|i: int| 0 <= i < seen.len() && (#[trigger] seen[i]).0 == n
}

/// Checks the dependency arguments one after the other: each needs a name
/// and a version, and no name may come twice. Gives the dependencies in the
/// order given.
pub open spec fn check_deps(deps: Seq<Seq<char>>, seen: Seq<(Seq<char>, Seq<char>)>) -> Result<
    Seq<(Seq<char>, Seq<char>)>,
    DepError,
>
    decreases deps.len(),
{
    if deps.len() == 0 {
        Ok(seen)
    } else {
        let (n, v) = dep_parts(deps[0]);
        if n.len() == 0 {
            Err(DepError::EmptyName)
        } else if v.len() == 0 {
            Err(DepError::EmptyVersion)
        } else if has_name(seen, n) {
            Err(DepError::Duplicate(n))
        } else {
            check_deps(deps.drop_first(), seen.push((n, v)))
        }
    }
}

/// The dependencies of the command line, checked and sorted by name.
pub open spec fn dependencies_spec(deps: Seq<Seq<char>>) -> Result<Seq<(Seq<char>, Seq<char>)>, DepError> {
    match check_deps(deps, Seq::empty()) {
        Ok(seen) => Ok(table_extend(Seq::empty(), seen)),
        Err(e) => Err(e),
    }
}

/// Is `e` the error for `de`?
pub open spec fn dep_error_is(e: MainError, de: DepError) -> bool {
    match de {
        DepError::EmptyName => e == MainError::OtherBorrowed("cannot have empty dependency package name"),
        DepError::EmptyVersion => e == MainError::OtherBorrowed("cannot have empty dependency version"),
        DepError::Duplicate(n) => e matches MainError::OtherOwned(m) && m@ == "duplicated dependency: '"@
            + n + "'"@,
    }
}

/// Puts `(k, v)` into a list of pairs in ascending order of first components.
fn pairs_insert(es: &mut Vec<(String, String)>, k: String, v: String)
    requires
        keys_sorted(deps_view(old(es)@)),
    ensures
        deps_view(final(es)@) == table_insert(deps_view(old(es)@), k@, v@),
        keys_sorted(deps_view(final(es)@)),
{
    let ghost m = deps_view(es@);
    let mut i: usize = 0;
    while i < es.len() && key_less(es[i].0.as_str(), k.as_str())
        invariant
            m == deps_view(es@),
            i <= es@.len(),
            forall|t: int| 0 <= t < i ==> key_lt(#[trigger] m[t].0, k@),
        decreases es@.len() - i,
    {
        i = i + 1;
    }
    proof {
        lemma_table_insert_at(m, k@, v@, i as int);
        lemma_table_insert_sorted(m, k@, v@);
    }
    let ghost kv = k@;
    let ghost vv = v@;
    if i < es.len() && es[i].0 == k {
        let _old = es.remove(i);
        es.insert(i, (k, v));
        assert(deps_view(es@) =~= m.update(i as int, (kv, vv)));
    } else {
        es.insert(i, (k, v));
        assert(deps_view(es@) =~= m.insert(i as int, (kv, vv)));
    }
}

fn has_name_exec(seen: &Vec<(String, String)>, n: &String) -> (r: bool)
    ensures
        r == has_name(deps_view(seen@), n@),
{
    let mut i: usize = 0;
    while i < seen.len()
        invariant
            i <= seen@.len(),
            forall|t: int| 0 <= t < i ==> (#[trigger] deps_view(seen@)[t]).0 != n@,
        decreases seen@.len() - i,
    {
        if seen[i].0 == *n {
            assert(deps_view(seen@)[i as int].0 == n@);
            return true;
        }
        i = i + 1;
    }
    false
}

/// Checks the `--dep` arguments and sorts them by name: `pkg` stands for
/// `pkg=*`; names and versions must not be empty and names must not repeat.
pub fn normalize_dependencies(deps: &Vec<String>) -> (r: Result<Vec<(String, String)>, MainError>)
    ensures
        match dependencies_spec(deps@.map_values(|s: String| s@)) {
            Ok(ds) => r matches Ok(v) && deps_view(v@) == ds,
            Err(de) => r matches Err(e) && dep_error_is(e, de),
        },
{
    let ghost dv = deps@.map_values(|s: String| s@);
    let mut seen: Vec<(String, String)> = Vec::new();
    let mut sorted: Vec<(String, String)> = Vec::new();
    let mut i: usize = 0;
    assert(dv.skip(0) =~= dv);
    assert(deps_view(seen@) =~= Seq::<(Seq<char>, Seq<char>)>::empty());
    assert(deps_view(sorted@) =~= Seq::<(Seq<char>, Seq<char>)>::empty());
    while i < deps.len()
        invariant
            dv == deps@.map_values(|s: String| s@),
            i <= deps@.len(),
            keys_sorted(deps_view(sorted@)),
            check_deps(dv, Seq::empty()) == check_deps(dv.skip(i as int), deps_view(seen@)),
            deps_view(sorted@) == table_extend(Seq::empty(), deps_view(seen@)),
        decreases deps@.len() - i,
    {
        let ghost rest = dv.skip(i as int);
        assert(rest[0] == deps@[i as int]@);
        assert(rest.drop_first() =~= dv.skip(i + 1));
        let d = chars_of(deps[i].as_str());
        let j = find_char_exec(&d, '=', 0);
        proof {
            lemma_find_char(d@, '=', 0);
            reveal_strlit("*");
        }
        let mut name_v: Vec<char> = Vec::new();
        let mut ver_v: Vec<char> = Vec::new();
        push_range(&mut name_v, &d, 0, j);
        if j < d.len() {
            push_range(&mut ver_v, &d, j + 1, d.len());
            assert(ver_v@ =~= d@.skip(j + 1));
        } else {
            push_str(&mut ver_v, "*");
        }
        assert(name_v@ =~= dep_parts(d@).0);
        assert(ver_v@ =~= dep_parts(d@).1);
        if name_v.len() == 0 {
            return Err(MainError::OtherBorrowed("cannot have empty dependency package name"));
        }
        if ver_v.len() == 0 {
            return Err(MainError::OtherBorrowed("cannot have empty dependency version"));
        }
        let name = string_of(name_v.as_slice());
        let ver = string_of(ver_v.as_slice());
        if has_name_exec(&seen, &name) {
            let mut m: Vec<char> = Vec::new();
            push_str(&mut m, "duplicated dependency: '");
            push_str(&mut m, name.as_str());
            push_str(&mut m, "'");
            return Err(MainError::OtherOwned(string_of(m.as_slice())));
        }
        let ghost sv0 = deps_view(seen@);
        let ghost so0 = deps_view(sorted@);
        seen.push((name.clone(), ver.clone()));
        assert(deps_view(seen@) =~= sv0.push((name@, ver@)));
        pairs_insert(&mut sorted, name, ver);
        proof {
            lemma_table_extend_push(Seq::empty(), sv0, name@, ver@);
        }
        i = i + 1;
    }
    assert(dv.skip(i as int).len() == 0);
    Ok(sorted)
}

pub proof fn lemma_table_extend_push<V>(
    es: Seq<(Seq<char>, V)>,
    from: Seq<(Seq<char>, V)>,
    k: Seq<char>,
    v: V,
)
    ensures
        table_extend(es, from.push((k, v))) == table_insert(table_extend(es, from), k, v),
    decreases from.len(),
{
    let f2 = from.push((k, v));
    if from.len() == 0 {
        assert(f2.drop_first() =~= Seq::<(Seq<char>, V)>::empty());
        assert(f2[0] == (k, v));
        assert(table_extend(es, f2) == table_extend(table_insert(es, k, v), f2.drop_first()));
    } else {
        assert(f2.drop_first() =~= from.drop_first().push((k, v)));
        assert(f2[0] == from[0]);
        lemma_table_extend_push(table_insert(es, from[0].0, from[0].1), from.drop_first(), k, v);
    }
}

/// Each dependency argument split into name and version.
pub open spec fn parsed_deps(d: Seq<Seq<char>>) -> Seq<(Seq<char>, Seq<char>)> {
    d.map_values(|x: Seq<char>| dep_parts(x))
}

/// No two dependencies have the same name.
pub open spec fn names_distinct(s: Seq<(Seq<char>, Seq<char>)>) -> bool {
    forall|i: int, j: int| 0 <= i < j < s.len() ==> (#[trigger] s[i]).0 != (#[trigger] s[j]).0
}

/// Every dependency has a name and a version.
pub open spec fn parts_nonempty(s: Seq<(Seq<char>, Seq<char>)>) -> bool {
    forall|i: int| 0 <= i < s.len() ==> (#[trigger] s[i]).0.len() > 0 && s[i].1.len() > 0
}

/// The checks pass just when every argument has a name and a version and no
/// name comes twice; then they give the arguments split, in order.
pub proof fn lemma_check_deps(d: Seq<Seq<char>>, seen: Seq<(Seq<char>, Seq<char>)>)
    requires
        names_distinct(seen),
    ensures
        (check_deps(d, seen) is Ok) == (parts_nonempty(parsed_deps(d)) && names_distinct(
            seen + parsed_deps(d),
        )),
        check_deps(d, seen) matches Ok(r) ==> r == seen + parsed_deps(d),
    decreases d.len(),
{
    let p = parsed_deps(d);
    if d.len() == 0 {
        assert(seen + p =~= seen);
    } else {
        let (n, v) = dep_parts(d[0]);
        assert(p[0] == (n, v));
        let rest = d.drop_first();
        assert(parsed_deps(rest) =~= p.drop_first());
        let all = seen + p;
        assert(all[seen.len() as int] == (n, v));
        if n.len() == 0 {
        } else if v.len() == 0 {
        } else if has_name(seen, n) {
            let i = choose|i: int| 0 <= i < seen.len() && (#[trigger] seen[i]).0 == n;
            assert(all[i] == seen[i]);
        } else {
            let s1 = seen.push((n, v));
            assert forall|i: int, j: int| 0 <= i < j < s1.len() implies (#[trigger] s1[i]).0
                != (#[trigger] s1[j]).0 by {
                if j < seen.len() {
                    assert(s1[i] == seen[i] && s1[j] == seen[j]);
                } else {
                    assert(s1[i] == seen[i]);
                }
            }
            lemma_check_deps(rest, s1);
            assert(s1 + parsed_deps(rest) =~= all);
            if parts_nonempty(p) {
                assert forall|i: int| 0 <= i < parsed_deps(rest).len() implies (
                #[trigger] parsed_deps(rest)[i]).0.len() > 0 && parsed_deps(rest)[i].1.len() > 0 by {
                    assert(parsed_deps(rest)[i] == p[i + 1]);
                }
            }
            if parts_nonempty(parsed_deps(rest)) {
                assert forall|i: int| 0 <= i < p.len() implies (#[trigger] p[i]).0.len() > 0
                    && p[i].1.len() > 0 by {
                    if i > 0 {
                        assert(p[i] == parsed_deps(rest)[i - 1]);
                    }
                }
            }
        }
    }
}

/// A value occurs twice in a sequence just when the sequence counts it at
/// least twice.
pub proof fn lemma_count_twice<A>(s: Seq<A>, x: A)
    ensures
        (s.to_multiset().count(x) >= 2) == (exists|p: int, q: int|
            0 <= p < q < s.len() && #[trigger] s[p] == x && #[trigger] s[q] == x),
    decreases s.len(),
{
    broadcast use vstd::seq_lib::group_to_multiset_ensures;

    if s.len() > 0 {
        let init = s.drop_last();
        lemma_count_twice(init, x);
        assert(s =~= init.push(s.last()));
        assert(s.to_multiset() == init.to_multiset().insert(s.last()));
        if s.to_multiset().count(x) >= 2 {
            if s.last() == x {
                assert(init.to_multiset().count(x) >= 1);
                assert(init.contains(x));
                let p = choose|p: int| 0 <= p < init.len() && init[p] == x;
                assert(s[p] == x && s[s.len() - 1] == x);
            } else {
                let (p, q) = choose|p: int, q: int|
                    0 <= p < q < init.len() && #[trigger] init[p] == x && #[trigger] init[q] == x;
                assert(s[p] == init[p] && s[q] == init[q]);
            }
        }
        if exists|p: int, q: int| 0 <= p < q < s.len() && #[trigger] s[p] == x && #[trigger] s[q] == x {
            let (p, q) = choose|p: int, q: int|
                0 <= p < q < s.len() && #[trigger] s[p] == x && #[trigger] s[q] == x;
            if q == s.len() - 1 {
                assert(init[p] == x);
                assert(init.contains(x));
            } else {
                assert(init[p] == x && init[q] == x);
            }
        }
    }
}

/// The dependencies do not depend on the order in which they are given:
/// any reordering of accepted dependency arguments is accepted too and gives
/// the same dependencies, so that the package id comes out the same.
pub proof fn law_dependencies_any_order(d1: Seq<Seq<char>>, d2: Seq<Seq<char>>)
    requires
        d1.to_multiset() == d2.to_multiset(),
        dependencies_spec(d1) is Ok,
    ensures
        dependencies_spec(d2) == dependencies_spec(d1),
{
    broadcast use vstd::seq_lib::group_to_multiset_ensures;

    let e = Seq::<(Seq<char>, Seq<char>)>::empty();
    let p1 = parsed_deps(d1);
    let p2 = parsed_deps(d2);
    lemma_check_deps(d1, e);
    assert(e + p1 =~= p1);
    assert(e + p2 =~= p2);
    assert forall|x: Seq<char>| d1.contains(x) == d2.contains(x) by {
        vstd::seq_lib::to_multiset_contains(d1, x);
        vstd::seq_lib::to_multiset_contains(d2, x);
    }
    assert forall|i: int| 0 <= i < p2.len() implies (#[trigger] p2[i]).0.len() > 0 && p2[i].1.len()
        > 0 by {
        assert(d2.contains(d2[i]));
        let j = choose|j: int| 0 <= j < d1.len() && d1[j] == d2[i];
        assert(p1[j] == p2[i]);
    }
    assert forall|i: int, j: int| 0 <= i < j < p2.len() implies (#[trigger] p2[i]).0 != (
    #[trigger] p2[j]).0 by {
        if p2[i].0 == p2[j].0 {
            let x = d2[i];
            let y = d2[j];
            assert(d2.contains(x) && d2.contains(y));
            if x != y {
                let a = choose|a: int| 0 <= a < d1.len() && d1[a] == x;
                let b = choose|b: int| 0 <= b < d1.len() && d1[b] == y;
                assert(p1[a] == p2[i] && p1[b] == p2[j]);
                if a < b {
                    assert(p1[a].0 != p1[b].0);
                } else {
                    assert(p1[b].0 != p1[a].0);
                }
            } else {
                lemma_count_twice(d2, x);
                assert(d2[i] == x && d2[j] == x);
                lemma_count_twice(d1, x);
                let (a, b) = choose|a: int, b: int|
                    0 <= a < b < d1.len() && #[trigger] d1[a] == x && #[trigger] d1[b] == x;
                assert(p1[a] == p2[i] && p1[b] == p2[j]);
            }
        }
    }
    lemma_check_deps(d2, e);
    let r1 = table_extend(e, p1);
    let r2 = table_extend(e, p2);
    crate::merge::lemma_table_extend_sorted(e, p1);
    crate::merge::lemma_table_extend_sorted(e, p2);
    assert forall|k: Seq<char>| #[trigger] table_lookup(r1, k) == table_lookup(r2, k) by {
        crate::merge::lemma_table_extend_lookup(e, p1, k);
        crate::merge::lemma_table_extend_lookup(e, p2, k);
        if exists|i: int| 0 <= i < p1.len() && (#[trigger] p1[i]).0 == k {
            let i = choose|i: int| 0 <= i < p1.len() && (#[trigger] p1[i]).0 == k;
            assert(d2.contains(d1[i]));
            let j = choose|j: int| 0 <= j < d2.len() && d2[j] == d1[i];
            assert(p2[j] == p1[i]);
        } else if exists|j: int| 0 <= j < p2.len() && (#[trigger] p2[j]).0 == k {
            let j = choose|j: int| 0 <= j < p2.len() && (#[trigger] p2[j]).0 == k;
            assert(d1.contains(d2[j]));
            let i = choose|i: int| 0 <= i < d1.len() && d1[i] == d2[j];
            assert(p1[i] == p2[j]);
        }
    }
    crate::table::lemma_tables_equal(r1, r2);
}

/// Accepted dependencies come out in ascending order of name, no name twice,
/// each with the version given for it (`*` where none was).
pub proof fn law_dependencies_sorted(d: Seq<Seq<char>>)
    requires
        dependencies_spec(d) is Ok,
    ensures
        dependencies_spec(d) matches Ok(r) && keys_sorted(r) && forall|k: Seq<char>, v: Seq<char>|
            #![trigger table_lookup(r, k), parsed_deps(d).contains((k, v))]
            (table_lookup(r, k) == Some(v)) == parsed_deps(d).contains((k, v)),
{
    let e = Seq::<(Seq<char>, Seq<char>)>::empty();
    let p = parsed_deps(d);
    lemma_check_deps(d, e);
    assert(e + p =~= p);
    let r = table_extend(e, p);
    crate::merge::lemma_table_extend_sorted(e, p);
    assert forall|k: Seq<char>, v: Seq<char>|
        #![trigger table_lookup(r, k), p.contains((k, v))]
        (table_lookup(r, k) == Some(v)) == p.contains((k, v)) by {
        crate::merge::lemma_table_extend_lookup(e, p, k);
        if p.contains((k, v)) {
            let i = choose|i: int| 0 <= i < p.len() && p[i] == (k, v);
            assert(p[i].0 == k);
        }
        if table_lookup(r, k) == Some(v) {
            if exists|i: int| 0 <= i < p.len() && (#[trigger] p[i]).0 == k {
                let i = choose|i: int| 0 <= i < p.len() && (#[trigger] p[i]).0 == k;
                assert(p[i] == (k, v));
            }
        }
    }
}

/// What is to be done with the input.
#[derive(Debug)]
pub struct InputAction {
    /// Always show Cargo's output?
    pub cargo_output: bool,
    /// Force Cargo to rebuild, even if it thinks it need not.
    pub force_compile: bool,
    /// Run the built binary?
    pub execute: bool,
    /// The directory where the package lives.
    pub pkg_path: String,
    /// The path of the source file the manifest refers to.
    pub script_path: String,
    /// Is the package directory in the cache?
    pub using_cache: bool,
    /// The toolchain to build with; `None` is the default one.
    pub toolchain_version: Option<String>,
    /// Build in debug mode?
    pub debug: bool,
    /// The package manifest.
    pub manifest: String,
    /// The script source, to be written to `script_path`.
    pub script: Option<String>,
    /// Build, test or benchmark.
    pub build_kind: BuildKind,
    /// The name of the built binary.
    pub bin_name: String,
    /// The script as the user named it.
    pub original_script_path: Option<String>,
}

pub open spec fn opt_view(o: Option<String>) -> Option<Seq<char>> {
    match o {
        Some(s) => Some(s@),
        None => None,
    }
}

/// The toolchain the build asks for: the one given, else nightly for
/// benchmarks.
pub open spec fn toolchain_spec(args: Args) -> Option<Seq<char>> {
    match args.toolchain_version {
        Some(t) => Some(t@),
        None => if args.build_kind == BuildKind::Bench {
            Some("nightly"@)
        } else {
            None
        },
    }
}

/// Debug builds: as asked for normal builds, always for tests, never for
/// benchmarks.
pub open spec fn debug_spec(args: Args) -> bool {
    match args.build_kind {
        BuildKind::Normal => args.debug,
        BuildKind::Test => true,
        BuildKind::Bench => false,
    }
}

/// The action for an input, given the directory of the generated projects
/// cache, as far as it does not depend on the split of the input.
pub open spec fn action_fits(
    a: InputAction,
    input: Input,
    deps: Seq<(Seq<char>, Seq<char>)>,
    args: Args,
    projects_cache: Seq<char>,
    mani: Seq<char>,
    src: Seq<char>,
) -> bool {
    let id = package_id(input, deps);
    let pkg = match args.pkg_path {
        Some(p) => p@,
        None => join_path(projects_cache, id),
    };
    &&& a.cargo_output == args.cargo_output
    &&& a.force_compile == args.force
    &&& a.execute == !args.gen_pkg_only
    &&& a.pkg_path@ == pkg
    &&& a.using_cache == (args.pkg_path is None)
    &&& a.script_path@ == join_path(pkg, safe_name_spec(input) + ".rs"@)
    &&& opt_view(a.toolchain_version) == toolchain_spec(args)
    &&& a.debug == debug_spec(args)
    &&& a.manifest@ == mani
    &&& a.script matches Some(s) && s@ == src
    &&& a.build_kind == args.build_kind
    &&& a.bin_name@ == package_name_of(safe_name_spec(input)) + "_"@ + id
    &&& opt_view(a.original_script_path) == opt_view(args.script)
}

fn clone_opt(o: &Option<String>) -> (r: Option<String>)
    ensures
        opt_view(r) == opt_view(*o),
{
    match o {
        Some(s) => Some(s.clone()),
        None => None,
    }
}

/// For the given input, builds the package manifest and source and decides
/// what is to be done; `projects_cache` is the directory of the generated
/// projects cache.
pub fn decide_action_for(
    input: &Input,
    deps: &Vec<(String, String)>,
    prelude: &Vec<String>,
    args: &Args,
    projects_cache: &str,
) -> (r: Result<InputAction, MainError>)
    requires
        input is File ==> prelude@.len() == 0,
    ensures
        match split_input_spec(
            *input,
            deps_view(deps@),
            prelude@.map_values(|s: String| s@),
            package_id(*input, deps_view(deps@)),
        ) {
            Ok((m, src)) => r matches Ok(a) && action_fits(
                a,
                *input,
                deps_view(deps@),
                *args,
                projects_cache@,
                m,
                src,
            ),
            Err(se) => r matches Err(e) && split_error_is(e, se),
        },
{
    let input_id = input.compute_id(deps);
    let pkg_name = input.package_name();
    let mut bin: Vec<char> = chars_of(pkg_name.as_str());
    push_str(&mut bin, "_");
    push_str(&mut bin, input_id.as_str());
    let bin_name = string_of(bin.as_slice());
    let (pkg_path, using_cache) = match &args.pkg_path {
        Some(p) => (p.clone(), false),
        None => (join(projects_cache, input_id.as_str()), true),
    };
    let toolchain_version = match &args.toolchain_version {
        Some(t) => Some(t.clone()),
        None => match args.build_kind {
            BuildKind::Bench => Some("nightly".to_owned()),
            _ => None,
        },
    };
    let mut sn: Vec<char> = chars_of(input.safe_name());
    push_str(&mut sn, ".rs");
    let script_name = string_of(sn.as_slice());
    let (mani_str, script_str) = split_input(input, deps, prelude, input_id.as_str())?;
    let script_path = join(pkg_path.as_str(), script_name.as_str());
    let debug = match args.build_kind {
        BuildKind::Normal => args.debug,
        BuildKind::Test => true,
        BuildKind::Bench => false,
    };
    Ok(InputAction {
        cargo_output: args.cargo_output,
        force_compile: args.force,
        execute: !args.gen_pkg_only,
        pkg_path,
        script_path,
        using_cache,
        toolchain_version,
        debug,
        manifest: mani_str,
        script: Some(script_str),
        build_kind: args.build_kind,
        bin_name,
        original_script_path: clone_opt(&args.script),
    })
}

} // verus!
