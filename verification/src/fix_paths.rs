//! Rewriting the relative paths of a manifest so that the package can live
//! anywhere.
use vstd::prelude::*;
use crate::paths::{is_relative, join, join_path, path_is_relative};
use crate::table::table_lookup;
use crate::text::str_equal;
use crate::toml_model::{
    entries_model, key_lt, table_entries, table_from_entries, table_into_entries, table_new,
    toml_model, toml_node, toml_string_value, toml_table_value, TomlModel, TomlNode,
};

verus! {

/// The value `m` with the path rewrite applied where `path` leads: `"*"`
/// stands for every key of a table; a string reached at the end of the path
/// is made absolute against `base` when it is a relative path.
pub open spec fn rewrite_at(m: TomlModel, path: Seq<Seq<char>>, base: Seq<char>) -> TomlModel
    decreases path.len(),
{
    if path.len() == 0 {
        match m {
            TomlModel::Str(s) => if path_is_relative(s) {
                TomlModel::Str(join_path(base, s))
            } else {
                m
            },
            _ => m,
        }
    } else {
        match m {
            TomlModel::Table(es) => TomlModel::Table(
                es.map_values(
                    |e: (Seq<char>, TomlModel)|
                        if path[0] == "*"@ || e.0 == path[0] {
                            (e.0, rewrite_at(e.1, path.drop_first(), base))
                        } else {
                            e
                        },
                ),
            ),
            _ => m,
        }
    }
}

/// Applies the rewrite to what `path[from..]` leads to in `v`.
pub fn iterate_toml_mut_path(v: toml::Value, path: &Vec<&str>, from: usize, base: &str) -> (r:
    toml::Value)
    requires
        from <= path@.len(),
    ensures
        toml_model(r) == rewrite_at(
            toml_model(v),
            path@.map_values(|p: &str| p@).skip(from as int),
            base@,
        ),
    decreases path@.len() - from,
{
    let ghost pv = path@.map_values(|p: &str| p@).skip(from as int);
    let ghost m = toml_model(v);
    if from == path.len() {
        assert(pv.len() == 0);
        match toml_node(v) {
            TomlNode::Str(s) => {
                if is_relative(s.as_str()) {
                    let j = join(base, s.as_str());
                    toml_string_value(j)
                } else {
                    toml_string_value(s)
                }
            },
            TomlNode::Table(t) => toml_table_value(t),
            TomlNode::Other(w) => w,
        }
    } else {
        let cur = path[from];
        assert(pv[0] == cur@);
        assert(pv.drop_first() =~= path@.map_values(|p: &str| p@).skip(from + 1));
        match toml_node(v) {
            TomlNode::Table(t) => {
                let es = table_into_entries(t);
                let ghost em = entries_model(es@);
                let ghost target = em.map_values(
                    |e: (Seq<char>, TomlModel)|
                        if pv[0] == "*"@ || e.0 == pv[0] {
                            (e.0, rewrite_at(e.1, pv.drop_first(), base@))
                        } else {
                            e
                        },
                );
                let star = str_equal(cur, "*");
                let mut rest = es;
                let mut out: Vec<(String, toml::Value)> = Vec::new();
                let ghost n = em.len();
                while rest.len() > 0
                    invariant
                        from < path@.len(),
                        from < path.len(),
                        cur == path@[from as int],
                        star == (cur@ == "*"@),
                        pv[0] == cur@,
                        pv.drop_first() == path@.map_values(|p: &str| p@).skip(from + 1),
                        n == em.len(),
                        target.len() == n,
                        out@.len() + rest@.len() == n,
                        entries_model(rest@) == em.skip(out@.len() as int),
                        entries_model(out@) == target.take(out@.len() as int),
                        forall|t: int| 0 <= t < n ==> (#[trigger] target[t]).0 == em[t].0,
                        target == em.map_values(
                            |e: (Seq<char>, TomlModel)|
                                if pv[0] == "*"@ || e.0 == pv[0] {
                                    (e.0, rewrite_at(e.1, pv.drop_first(), base@))
                                } else {
                                    e
                                },
                        ),
                    decreases rest@.len(),
                {
                    let ghost i = out@.len() as int;
                    let ghost rm = entries_model(rest@);
                    let (k, val) = rest.remove(0);
                    assert(rm[0] == em[i]);
                    assert(entries_model(rest@) =~= rm.drop_first());
                    assert(rm.drop_first() =~= em.skip(i + 1));
                    if star || str_equal(k.as_str(), cur) {
                        let nv = iterate_toml_mut_path(val, path, from + 1, base);
                        out.push((k, nv));
                    } else {
                        out.push((k, val));
                    }
                    assert(entries_model(out@) =~= target.take(i + 1));
                }
                assert(target.take(n as int) =~= target);
                assert(m == TomlModel::Table(em));
                assert(pv.len() > 0);
                let ghost rw = rewrite_at(m, pv, base@);
                assert(rw is Table);
                assert(rw->Table_0 =~= target);
                assert forall|a: int, b: int| 0 <= a < b < target.len() implies key_lt(
                    #[trigger] target[a].0,
                    #[trigger] target[b].0,
                ) by {}
                toml_table_value(table_from_entries(out))
            },
            TomlNode::Str(s) => toml_string_value(s),
            TomlNode::Other(w) => w,
        }
    }
}

/// The manifest with the relative paths it names made absolute against `base`.
pub open spec fn fix_paths_spec(m: TomlModel, base: Seq<char>) -> TomlModel {
    let m1 = rewrite_at(m, seq!["build-dependencies"@, "*"@, "path"@], base);
    let m2 = rewrite_at(m1, seq!["dependencies"@, "*"@, "path"@], base);
    let m3 = rewrite_at(m2, seq!["dev-dependencies"@, "*"@, "path"@], base);
    let m4 = rewrite_at(m3, seq!["package"@, "build"@], base);
    rewrite_at(m4, seq!["target"@, "*"@, "dependencies"@, "*"@, "path"@], base)
}

/// Every string that `path` leads to in `m` is an absolute path.
pub open spec fn absolute_at(m: TomlModel, path: Seq<Seq<char>>) -> bool
    decreases path.len(),
{
    if path.len() == 0 {
        match m {
            TomlModel::Str(s) => !path_is_relative(s),
            _ => true,
        }
    } else {
        match m {
            TomlModel::Table(es) => forall|i: int|
                0 <= i < es.len() && (path[0] == "*"@ || (#[trigger] es[i]).0 == path[0])
                    ==> absolute_at(es[i].1, path.drop_first()),
            _ => true,
        }
    }
}

/// Rewriting leaves a value alone where the paths are absolute already.
pub proof fn lemma_rewrite_absolute(m: TomlModel, path: Seq<Seq<char>>, base: Seq<char>)
    requires
        absolute_at(m, path),
    ensures
        rewrite_at(m, path, base) == m,
    decreases path.len(),
{
    if path.len() > 0 {
        if let TomlModel::Table(es) = m {
            let es2 = rewrite_at(m, path, base)->Table_0;
            assert(es2.len() == es.len());
            assert forall|i: int| 0 <= i < es.len() implies es2[i] == es[i] by {
                if path[0] == "*"@ || es[i].0 == path[0] {
                    lemma_rewrite_absolute(es[i].1, path.drop_first(), base);
                }
            }
            assert(es2 =~= es);
        }
    }
}

/// Against an absolute base, rewriting makes every path it reaches absolute
/// and keeps absolute whatever was.
pub proof fn lemma_rewrite_makes_absolute(
    m: TomlModel,
    path: Seq<Seq<char>>,
    q: Seq<Seq<char>>,
    base: Seq<char>,
)
    requires
        !path_is_relative(base),
    ensures
        absolute_at(rewrite_at(m, path, base), path),
        absolute_at(m, q) ==> absolute_at(rewrite_at(m, path, base), q),
    decreases path.len(), q.len(),
{
    if path.len() == 0 {
        if let TomlModel::Str(s) = m {
            if path_is_relative(s) {
                assert(join_path(base, s)[0] == base[0]);
            }
        }
    } else {
        if let TomlModel::Table(es) = m {
            let es2 = rewrite_at(m, path, base)->Table_0;
            assert(es2.len() == es.len());
            assert forall|i: int|
                0 <= i < es2.len() && (path[0] == "*"@ || (#[trigger] es2[i]).0 == path[0]) implies absolute_at(
                es2[i].1,
                path.drop_first(),
            ) by {
                lemma_rewrite_makes_absolute(es[i].1, path.drop_first(), q, base);
            }
            if absolute_at(m, q) && q.len() > 0 {
                assert forall|i: int|
                    0 <= i < es2.len() && (q[0] == "*"@ || (#[trigger] es2[i]).0 == q[0]) implies absolute_at(
                    es2[i].1,
                    q.drop_first(),
                ) by {
                    assert(es2[i].0 == es[i].0);
                    assert(absolute_at(es[i].1, q.drop_first()));
                    if path[0] == "*"@ || es[i].0 == path[0] {
                        lemma_rewrite_makes_absolute(es[i].1, path.drop_first(), q.drop_first(), base);
                    }
                }
            }
        }
    }
}

/// Against an absolute base (the script's directory or the working
/// directory), making the paths of a manifest absolute a second time
/// changes nothing.
pub proof fn law_fix_paths_twice(m: TomlModel, base: Seq<char>)
    requires
        !path_is_relative(base),
    ensures
        fix_paths_spec(fix_paths_spec(m, base), base) == fix_paths_spec(m, base),
{
    let p1 = seq!["build-dependencies"@, "*"@, "path"@];
    let p2 = seq!["dependencies"@, "*"@, "path"@];
    let p3 = seq!["dev-dependencies"@, "*"@, "path"@];
    let p4 = seq!["package"@, "build"@];
    let p5 = seq!["target"@, "*"@, "dependencies"@, "*"@, "path"@];
    let m1 = rewrite_at(m, p1, base);
    let m2 = rewrite_at(m1, p2, base);
    let m3 = rewrite_at(m2, p3, base);
    let m4 = rewrite_at(m3, p4, base);
    let f = rewrite_at(m4, p5, base);
    lemma_rewrite_makes_absolute(m, p1, p1, base);
    lemma_rewrite_makes_absolute(m1, p2, p1, base);
    lemma_rewrite_makes_absolute(m2, p3, p1, base);
    lemma_rewrite_makes_absolute(m2, p3, p2, base);
    lemma_rewrite_makes_absolute(m3, p4, p1, base);
    lemma_rewrite_makes_absolute(m3, p4, p2, base);
    lemma_rewrite_makes_absolute(m3, p4, p3, base);
    lemma_rewrite_makes_absolute(m4, p5, p1, base);
    lemma_rewrite_makes_absolute(m4, p5, p2, base);
    lemma_rewrite_makes_absolute(m4, p5, p3, base);
    lemma_rewrite_makes_absolute(m4, p5, p4, base);
    lemma_rewrite_absolute(f, p1, base);
    lemma_rewrite_absolute(f, p2, base);
    lemma_rewrite_absolute(f, p3, base);
    lemma_rewrite_absolute(f, p4, base);
    lemma_rewrite_absolute(f, p5, base);
}

fn rewrite_one(v: toml::Value, path: Vec<&str>, base: &str) -> (r: toml::Value)
    ensures
        toml_model(r) == rewrite_at(toml_model(v), path@.map_values(|p: &str| p@), base@),
{
    let r = iterate_toml_mut_path(v, &path, 0, base);
    assert(path@.map_values(|p: &str| p@).skip(0) =~= path@.map_values(|p: &str| p@));
    r
}

/// Rewriting what a path leads to keeps a table a table.
pub proof fn lemma_rewrite_keeps_table(m: TomlModel, p: Seq<Seq<char>>, b: Seq<char>)
    requires
        m is Table,
    ensures
        rewrite_at(m, p, b) is Table,
{
}

/// Fixing the paths of a table gives a table.
pub proof fn lemma_fix_keeps_table(m: TomlModel, b: Seq<char>)
    requires
        m is Table,
    ensures
        fix_paths_spec(m, b) is Table,
{
    let m1 = rewrite_at(m, seq!["build-dependencies"@, "*"@, "path"@], b);
    lemma_rewrite_keeps_table(m, seq!["build-dependencies"@, "*"@, "path"@], b);
    let m2 = rewrite_at(m1, seq!["dependencies"@, "*"@, "path"@], b);
    lemma_rewrite_keeps_table(m1, seq!["dependencies"@, "*"@, "path"@], b);
    let m3 = rewrite_at(m2, seq!["dev-dependencies"@, "*"@, "path"@], b);
    lemma_rewrite_keeps_table(m2, seq!["dev-dependencies"@, "*"@, "path"@], b);
    let m4 = rewrite_at(m3, seq!["package"@, "build"@], b);
    lemma_rewrite_keeps_table(m3, seq!["package"@, "build"@], b);
    lemma_rewrite_keeps_table(m4, seq!["target"@, "*"@, "dependencies"@, "*"@, "path"@], b);
}

/// The value that the keys `q` lead to in `m`, table by table.
pub open spec fn value_at(m: TomlModel, q: Seq<Seq<char>>) -> Option<TomlModel>
    decreases q.len(),
{
    if q.len() == 0 {
        Some(m)
    } else {
        match m {
            TomlModel::Table(es) => match table_lookup(es, q[0]) {
                Some(v) => value_at(v, q.drop_first()),
                None => None,
            },
            _ => None,
        }
    }
}

/// Does the path `p` (where `"*"` stands for any key) lead to the keys `q`?
pub open spec fn path_matches(p: Seq<Seq<char>>, q: Seq<Seq<char>>) -> bool {
    p.len() == q.len() && forall|i: int| 0 <= i < p.len() ==> (p[i] == "*"@ || #[trigger] p[i] == q[i])
}

/// Is `q` a place where a manifest names a file: the path of a dependency,
/// a dev-dependency, a build-dependency or a platform's dependency, or the
/// build script?
pub open spec fn is_file_place(q: Seq<Seq<char>>) -> bool {
    ||| path_matches(seq!["build-dependencies"@, "*"@, "path"@], q)
    ||| path_matches(seq!["dependencies"@, "*"@, "path"@], q)
    ||| path_matches(seq!["dev-dependencies"@, "*"@, "path"@], q)
    ||| path_matches(seq!["package"@, "build"@], q)
    ||| path_matches(seq!["target"@, "*"@, "dependencies"@, "*"@, "path"@], q)
}

proof fn lemma_lookup_map(
    es: Seq<(Seq<char>, TomlModel)>,
    f: spec_fn((Seq<char>, TomlModel)) -> (Seq<char>, TomlModel),
    k: Seq<char>,
    g: spec_fn(TomlModel) -> TomlModel,
)
    requires
        forall|i: int| 0 <= i < es.len() ==> (#[trigger] f(es[i])).0 == es[i].0,
        forall|i: int| 0 <= i < es.len() && es[i].0 == k ==> (#[trigger] f(es[i])).1 == g(es[i].1),
    ensures
        table_lookup(es.map_values(f), k) == match table_lookup(es, k) {
            Some(v) => Some(g(v)),
            None => None,
        },
    decreases es.len(),
{
    if es.len() > 0 {
        let t = es.drop_first();
        assert(es.map_values(f).drop_first() =~= t.map_values(f));
        assert forall|i: int| 0 <= i < t.len() implies (#[trigger] f(t[i])).0 == t[i].0 by {
            assert(t[i] == es[i + 1]);
        }
        assert forall|i: int| 0 <= i < t.len() && t[i].0 == k implies (#[trigger] f(t[i])).1 == g(
            t[i].1,
        ) by {
            assert(t[i] == es[i + 1]);
        }
        assert(f(es[0]).0 == es[0].0);
        lemma_lookup_map(t, f, k, g);
    }
}

/// Rewriting along `p` changes what `p` leads to, and that alone where it
/// is a string: the value at keys `q` that `p` matches is rewritten, and
/// the value at keys whose first differs from `p`'s is kept.
proof fn lemma_rewrite_value_at(m: TomlModel, p: Seq<Seq<char>>, q: Seq<Seq<char>>, base: Seq<char>)
    ensures
        path_matches(p, q) ==> value_at(rewrite_at(m, p, base), q) == match value_at(m, q) {
            Some(v) => Some(rewrite_at(v, Seq::empty(), base)),
            None => None,
        },
        p.len() > 0 && q.len() > 0 && p[0] != "*"@ && p[0] != q[0] ==> value_at(
            rewrite_at(m, p, base),
            q,
        ) == value_at(m, q),
    decreases p.len(),
{
    if p.len() > 0 && q.len() > 0 {
        if let TomlModel::Table(es) = m {
            let f = |e: (Seq<char>, TomlModel)|
                if p[0] == "*"@ || e.0 == p[0] {
                    (e.0, rewrite_at(e.1, p.drop_first(), base))
                } else {
                    e
                };
            assert(rewrite_at(m, p, base)->Table_0 =~= es.map_values(f));
            if path_matches(p, q) {
                assert(p[0] == "*"@ || p[0] == q[0]);
                let g = |v: TomlModel| rewrite_at(v, p.drop_first(), base);
                lemma_lookup_map(es, f, q[0], g);
                assert(path_matches(p.drop_first(), q.drop_first())) by {
                    assert forall|i: int| 0 <= i < p.len() - 1 implies (p.drop_first()[i] == "*"@
                        || #[trigger] p.drop_first()[i] == q.drop_first()[i]) by {
                        assert(p[i + 1] == "*"@ || p[i + 1] == q[i + 1]);
                    }
                }
                match table_lookup(es, q[0]) {
                    Some(v) => {
                        lemma_rewrite_value_at(v, p.drop_first(), q.drop_first(), base);
                    },
                    None => {},
                }
            }
            if p[0] != "*"@ && p[0] != q[0] {
                let g = |v: TomlModel| v;
                lemma_lookup_map(es, f, q[0], g);
            }
        }
    }
}

/// What the rewrite along one path does to a string at its end.
pub open spec fn made_absolute(v: TomlModel, base: Seq<char>) -> TomlModel {
    match v {
        TomlModel::Str(s) => TomlModel::Str(join_path(base, s)),
        _ => v,
    }
}

/// Fixing the paths of a manifest joins every relative file path it names
/// (of a dependency, dev-dependency, build-dependency, platform dependency
/// or the build script) to the base, once, keeps those that are absolute,
/// and leaves what is there of another kind as it is.
pub proof fn law_fix_paths_at(m: TomlModel, base: Seq<char>, q: Seq<Seq<char>>)
    requires
        is_file_place(q),
    ensures
        value_at(fix_paths_spec(m, base), q) == match value_at(m, q) {
            Some(v) => Some(made_absolute(v, base)),
            None => None,
        },
{
    let p1 = seq!["build-dependencies"@, "*"@, "path"@];
    let p2 = seq!["dependencies"@, "*"@, "path"@];
    let p3 = seq!["dev-dependencies"@, "*"@, "path"@];
    let p4 = seq!["package"@, "build"@];
    let p5 = seq!["target"@, "*"@, "dependencies"@, "*"@, "path"@];
    let m1 = rewrite_at(m, p1, base);
    let m2 = rewrite_at(m1, p2, base);
    let m3 = rewrite_at(m2, p3, base);
    let m4 = rewrite_at(m3, p4, base);
    reveal_strlit("*");
    reveal_strlit("build-dependencies");
    reveal_strlit("dependencies");
    reveal_strlit("dev-dependencies");
    reveal_strlit("package");
    reveal_strlit("target");
    assert(p1[0].len() == 18 && p2[0].len() == 12 && p3[0].len() == 16);
    assert(p4[0].len() == 7 && p5[0].len() == 6 && "*"@.len() == 1);
    assert(q.len() > 0);
    assert(q[0] == p1[0] || q[0] == p2[0] || q[0] == p3[0] || q[0] == p4[0] || q[0] == p5[0]);
    assert(p1[0] != p2[0] && p1[0] != p3[0] && p1[0] != p4[0] && p1[0] != p5[0]);
    assert(p2[0] != p3[0] && p2[0] != p4[0] && p2[0] != p5[0]);
    assert(p3[0] != p4[0] && p3[0] != p5[0] && p4[0] != p5[0]);
    assert(p1[0] != "*"@ && p2[0] != "*"@ && p3[0] != "*"@ && p4[0] != "*"@ && p5[0] != "*"@);
    lemma_rewrite_value_at(m, p1, q, base);
    lemma_rewrite_value_at(m1, p2, q, base);
    lemma_rewrite_value_at(m2, p3, q, base);
    lemma_rewrite_value_at(m3, p4, q, base);
    lemma_rewrite_value_at(m4, p5, q, base);
    if path_matches(p1, q) {
        assert(q[0] == p1[0]);
    } else if path_matches(p2, q) {
        assert(q[0] == p2[0]);
    } else if path_matches(p3, q) {
        assert(q[0] == p3[0]);
    } else if path_matches(p4, q) {
        assert(q[0] == p4[0]);
    } else {
        assert(q[0] == p5[0]);
    }
    match value_at(m, q) {
        Some(v) => {
            if let TomlModel::Str(s) = v {
                assert(!path_is_relative(s) ==> join_path(base, s) == s);
            }
        },
        None => {},
    }
}

/// Fixing the paths of a manifest leaves every section but the dependency
/// tables, the package and the platform targets as it is.
pub proof fn law_fix_paths_elsewhere(m: TomlModel, base: Seq<char>, q: Seq<Seq<char>>)
    requires
        q.len() > 0,
        q[0] != "build-dependencies"@,
        q[0] != "dependencies"@,
        q[0] != "dev-dependencies"@,
        q[0] != "package"@,
        q[0] != "target"@,
    ensures
        value_at(fix_paths_spec(m, base), q) == value_at(m, q),
{
    let p1 = seq!["build-dependencies"@, "*"@, "path"@];
    let p2 = seq!["dependencies"@, "*"@, "path"@];
    let p3 = seq!["dev-dependencies"@, "*"@, "path"@];
    let p4 = seq!["package"@, "build"@];
    let p5 = seq!["target"@, "*"@, "dependencies"@, "*"@, "path"@];
    let m1 = rewrite_at(m, p1, base);
    let m2 = rewrite_at(m1, p2, base);
    let m3 = rewrite_at(m2, p3, base);
    let m4 = rewrite_at(m3, p4, base);
    reveal_strlit("*");
    reveal_strlit("build-dependencies");
    reveal_strlit("dependencies");
    reveal_strlit("dev-dependencies");
    reveal_strlit("package");
    reveal_strlit("target");
    assert(p1[0].len() == 18 && p2[0].len() == 12 && p3[0].len() == 16);
    assert(p4[0].len() == 7 && p5[0].len() == 6 && "*"@.len() == 1);
    lemma_rewrite_value_at(m, p1, q, base);
    lemma_rewrite_value_at(m1, p2, q, base);
    lemma_rewrite_value_at(m2, p3, q, base);
    lemma_rewrite_value_at(m3, p4, q, base);
    lemma_rewrite_value_at(m4, p5, q, base);
}

/// Rewrites relative file paths of a manifest (dependency paths and the build
/// script) to absolute ones, so that the manifest can be relocated.
pub fn fix_manifest_paths(
    mani: toml::map::Map<String, toml::Value>,
    base: &str,
) -> (r: toml::map::Map<String, toml::Value>)
    ensures
        TomlModel::Table(table_entries(r)) == fix_paths_spec(
            TomlModel::Table(table_entries(mani)),
            base@,
        ),
{
    let v0 = toml_table_value(mani);
    let p1 = vec!["build-dependencies", "*", "path"];
    assert(p1@.map_values(|p: &str| p@) =~= seq!["build-dependencies"@, "*"@, "path"@]);
    let v1 = rewrite_one(v0, p1, base);
    let p2 = vec!["dependencies", "*", "path"];
    assert(p2@.map_values(|p: &str| p@) =~= seq!["dependencies"@, "*"@, "path"@]);
    let v2 = rewrite_one(v1, p2, base);
    let p3 = vec!["dev-dependencies", "*", "path"];
    assert(p3@.map_values(|p: &str| p@) =~= seq!["dev-dependencies"@, "*"@, "path"@]);
    let v3 = rewrite_one(v2, p3, base);
    let p4 = vec!["package", "build"];
    assert(p4@.map_values(|p: &str| p@) =~= seq!["package"@, "build"@]);
    let v4 = rewrite_one(v3, p4, base);
    let p5 = vec!["target", "*", "dependencies", "*", "path"];
    assert(p5@.map_values(|p: &str| p@) =~= seq!["target"@, "*"@, "dependencies"@, "*"@, "path"@]);
    let v5 = rewrite_one(v4, p5, base);
    proof {
        lemma_fix_keeps_table(toml_model(v0), base@);
    }
    match toml_node(v5) {
        TomlNode::Table(t) => t,
        TomlNode::Str(_) => {
            assert(false);
            table_new()
        },
        TomlNode::Other(_) => {
            assert(false);
            table_new()
        },
    }
}

} // verus!
