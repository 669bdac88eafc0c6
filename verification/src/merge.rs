//! Merging Cargo manifests, table by table.
use vstd::prelude::*;
use crate::error::MainError;
use crate::table::{table_insert, table_lookup};
use crate::toml_model::{
    entries_model, key_lt, keys_sorted, table_entries, table_get, table_into_entries, table_put,
    table_put_all, toml_model, toml_node, toml_string_value, toml_table_value, TomlModel, TomlNode,
};

verus! {

/// The entries `es` with those of `from` put in, one after the other.
pub open spec fn table_extend<V>(es: Seq<(Seq<char>, V)>, from: Seq<(Seq<char>, V)>) -> Seq<
    (Seq<char>, V),
>
    decreases from.len(),
{
    if from.len() == 0 {
        es
    } else {
        table_extend(table_insert(es, from[0].0, from[0].1), from.drop_first())
    }
}

/// Putting entries in keeps the keys strictly ascending.
pub proof fn lemma_table_extend_sorted<V>(es: Seq<(Seq<char>, V)>, from: Seq<(Seq<char>, V)>)
    requires
        keys_sorted(es),
    ensures
        keys_sorted(table_extend(es, from)),
    decreases from.len(),
{
    if from.len() > 0 {
        crate::table::lemma_table_insert_sorted(es, from[0].0, from[0].1);
        lemma_table_extend_sorted(table_insert(es, from[0].0, from[0].1), from.drop_first());
    }
}

/// After putting in entries with distinct keys, each of their keys is looked
/// up as its entry's value, and every other key as before.
pub proof fn lemma_table_extend_lookup<V>(
    es: Seq<(Seq<char>, V)>,
    from: Seq<(Seq<char>, V)>,
    k: Seq<char>,
)
    requires
        forall|i: int, j: int|
            0 <= i < j < from.len() ==> (#[trigger] from[i]).0 != (#[trigger] from[j]).0,
    ensures
        forall|i: int|
            0 <= i < from.len() && (#[trigger] from[i]).0 == k ==> table_lookup(
                table_extend(es, from),
                k,
            ) == Some(from[i].1),
        (forall|i: int| 0 <= i < from.len() ==> (#[trigger] from[i]).0 != k) ==> table_lookup(
            table_extend(es, from),
            k,
        ) == table_lookup(es, k),
    decreases from.len(),
{
    if from.len() > 0 {
        let rest = from.drop_first();
        let es1 = table_insert(es, from[0].0, from[0].1);
        assert forall|i: int, j: int| 0 <= i < j < rest.len() implies (#[trigger] rest[i]).0
            != (#[trigger] rest[j]).0 by {
            assert(rest[i] == from[i + 1] && rest[j] == from[j + 1]);
        }
        lemma_table_extend_lookup(es1, rest, k);
        crate::table::lemma_lookup_insert(es, from[0].0, from[0].1, k);
        assert forall|i: int| 0 <= i < from.len() && (#[trigger] from[i]).0 == k implies table_lookup(
            table_extend(es, from),
            k,
        ) == Some(from[i].1) by {
            if i == 0 {
                assert forall|t: int| 0 <= t < rest.len() implies (#[trigger] rest[t]).0 != k by {
                    assert(rest[t] == from[t + 1]);
                }
            } else {
                assert(rest[i - 1] == from[i]);
            }
        }
        if forall|i: int| 0 <= i < from.len() ==> (#[trigger] from[i]).0 != k {
            assert forall|t: int| 0 <= t < rest.len() implies (#[trigger] rest[t]).0 != k by {
                assert(rest[t] == from[t + 1]);
            }
        }
    }
}

/// The manifest `into` with `from` merged into it, entry by entry in the order
/// of `from`: a table of `from` is merged into the table of the same key in
/// `into` (its entries replace those with the same keys), any other value
/// replaces what `into` has under its key. It fails where `from` has a table
/// and `into` has something else under the same key.
pub open spec fn merge_spec(
    into: Seq<(Seq<char>, TomlModel)>,
    from: Seq<(Seq<char>, TomlModel)>,
) -> Option<Seq<(Seq<char>, TomlModel)>>
    decreases from.len(),
{
    if from.len() == 0 {
        Some(into)
    } else {
        let k = from[0].0;
        let v = from[0].1;
        match v {
            TomlModel::Table(ft) => match table_lookup(into, k) {
                None => merge_spec(table_insert(into, k, v), from.drop_first()),
                Some(TomlModel::Table(it)) => merge_spec(
                    table_insert(into, k, TomlModel::Table(table_extend(it, ft))),
                    from.drop_first(),
                ),
                Some(_) => None,
            },
            _ => merge_spec(table_insert(into, k, v), from.drop_first()),
        }
    }
}

/// What merging gives under one key, from what `into` and `from` have
/// under it: a table of `from` is merged into a table of `into` (or stands
/// alone), any other value of `from` replaces what `into` has, and `into`
/// keeps what `from` does not have.
pub open spec fn merged_value(a: Option<TomlModel>, b: Option<TomlModel>) -> Option<TomlModel> {
    match b {
        None => a,
        Some(TomlModel::Table(ft)) => match a {
            Some(TomlModel::Table(it)) => Some(TomlModel::Table(table_extend(it, ft))),
            _ => Some(TomlModel::Table(ft)),
        },
        Some(v) => Some(v),
    }
}

/// Is there a value that is not a table?
pub open spec fn non_table(o: Option<TomlModel>) -> bool {
    match o {
        Some(TomlModel::Table(_)) => false,
        Some(_) => true,
        None => false,
    }
}

/// Does `from` have a table where `into` has a value that is not one?
pub open spec fn merge_clash(
    into: Seq<(Seq<char>, TomlModel)>,
    from: Seq<(Seq<char>, TomlModel)>,
) -> bool {
    exists|i: int|
        0 <= i < from.len() && (#[trigger] from[i]).1 is Table && non_table(table_lookup(into, from[i].0))
}

/// Merging manifests works key by key: it fails just when `from` has a
/// table where `into` has a value that is not one, and otherwise each key
/// holds what `merged_value` gives for it.
pub proof fn law_merge(
    into: Seq<(Seq<char>, TomlModel)>,
    from: Seq<(Seq<char>, TomlModel)>,
    k: Seq<char>,
)
    requires
        keys_sorted(from),
    ensures
        (merge_spec(into, from) is None) == merge_clash(into, from),
        merge_spec(into, from) matches Some(r) ==> table_lookup(r, k) == merged_value(
            table_lookup(into, k),
            table_lookup(from, k),
        ),
    decreases from.len(),
{
    if from.len() == 0 {
    } else {
        let k0 = from[0].0;
        let v0 = from[0].1;
        let rest = from.drop_first();
        lemma_sorted_drop_first(from);
        assert forall|i: int| 0 <= i < rest.len() implies (#[trigger] rest[i]).0 != k0 by {
            assert(rest[i] == from[i + 1]);
            crate::table::lemma_key_lt_irreflexive(k0);
        }
        crate::table::lemma_lookup_found(rest, k0);
        let into1 = match v0 {
            TomlModel::Table(ft) => match table_lookup(into, k0) {
                Some(TomlModel::Table(it)) => table_insert(
                    into,
                    k0,
                    TomlModel::Table(table_extend(it, ft)),
                ),
                _ => table_insert(into, k0, v0),
            },
            _ => table_insert(into, k0, v0),
        };
        let fails_here = v0 is Table && non_table(table_lookup(into, k0));
        if fails_here {
            assert(merge_clash(into, from)) by {
                assert(from[0].1 is Table);
            }
        } else {
            law_merge(into1, rest, k);
            match v0 {
                TomlModel::Table(ft) => match table_lookup(into, k0) {
                    Some(TomlModel::Table(it)) => {
                        crate::table::lemma_lookup_insert(
                            into,
                            k0,
                            TomlModel::Table(table_extend(it, ft)),
                            k,
                        );
                    },
                    _ => {
                        crate::table::lemma_lookup_insert(into, k0, v0, k);
                    },
                },
                _ => {
                    crate::table::lemma_lookup_insert(into, k0, v0, k);
                },
            }
            assert forall|q: Seq<char>| q != k0 implies table_lookup(into1, q) == table_lookup(
                into,
                q,
            ) by {
                match v0 {
                    TomlModel::Table(ft) => match table_lookup(into, k0) {
                        Some(TomlModel::Table(it)) => {
                            crate::table::lemma_lookup_insert(
                                into,
                                k0,
                                TomlModel::Table(table_extend(it, ft)),
                                q,
                            );
                        },
                        _ => {
                            crate::table::lemma_lookup_insert(into, k0, v0, q);
                        },
                    },
                    _ => {
                        crate::table::lemma_lookup_insert(into, k0, v0, q);
                    },
                }
            }
            assert(merge_clash(into1, rest) == merge_clash(into, from)) by {
                if merge_clash(into1, rest) {
                    let i = choose|i: int|
                        0 <= i < rest.len() && (#[trigger] rest[i]).1 is Table && non_table(table_lookup(into1, rest[i].0));
                    assert(from[i + 1] == rest[i]);
                    assert(table_lookup(into1, rest[i].0) == table_lookup(into, rest[i].0));
                }
                if merge_clash(into, from) {
                    let i = choose|i: int|
                        0 <= i < from.len() && (#[trigger] from[i]).1 is Table && non_table(table_lookup(into, from[i].0));
                    assert(i > 0);
                    assert(rest[i - 1] == from[i]);
                    assert(table_lookup(into1, rest[i - 1].0) == table_lookup(into, from[i].0));
                }
            }
        }
    }
}

pub proof fn lemma_sorted_drop_first<V>(es: Seq<(Seq<char>, V)>)
    requires
        keys_sorted(es),
        es.len() > 0,
    ensures
        keys_sorted(es.drop_first()),
{
    let rest = es.drop_first();
    assert forall|a: int, b: int| 0 <= a < b < rest.len() implies key_lt(
        #[trigger] rest[a].0,
        #[trigger] rest[b].0,
    ) by {
        assert(rest[a] == es[a + 1] && rest[b] == es[b + 1]);
    }
}


/// Merges the manifest `from_t` into the manifest `into_t`: only top-level
/// tables are merged, everything else is replaced.
pub fn merge_manifest(
    into_t: toml::map::Map<String, toml::Value>,
    from_t: toml::map::Map<String, toml::Value>,
) -> (r: Result<toml::map::Map<String, toml::Value>, MainError>)
    ensures
        r is Ok <==> merge_spec(table_entries(into_t), table_entries(from_t)) is Some,
        r matches Ok(t) ==> Some(table_entries(t)) == merge_spec(
            table_entries(into_t),
            table_entries(from_t),
        ),
        r matches Err(e) ==> e == MainError::OtherBorrowed(
            "cannot merge manifests: cannot merge table and non-table values",
        ),
{
    let ghost goal = merge_spec(table_entries(into_t), table_entries(from_t));
    let mut into = into_t;
    let mut from = table_into_entries(from_t);
    while from.len() > 0
        invariant
            goal == merge_spec(table_entries(into), entries_model(from@)),
            goal == merge_spec(table_entries(into_t), table_entries(from_t)),
        decreases from@.len(),
    {
        let ghost fm = entries_model(from@);
        let ghost im = table_entries(into);
        let (k, v) = from.remove(0);
        assert(entries_model(from@) =~= fm.drop_first());
        assert(fm[0] == (k@, toml_model(v)));
        match toml_node(v) {
            TomlNode::Table(ft) => {
                match table_get(&into, k.as_str()) {
                    None => {
                        let val = toml_table_value(ft);
                        table_put(&mut into, k, val);
                    },
                    Some(iv) => {
                        match toml_node(iv) {
                            TomlNode::Table(it) => {
                                let mut merged = it;
                                table_put_all(&mut merged, ft);
                                let val = toml_table_value(merged);
                                table_put(&mut into, k, val);
                            },
                            _ => {
                                assert(merge_spec(im, fm) is None);
                                return Err(
                                    MainError::OtherBorrowed(
                                        "cannot merge manifests: cannot merge table and non-table values",
                                    ),
                                );
                            },
                        }
                    },
                }
            },
            TomlNode::Str(s) => {
                let val = toml_string_value(s);
                table_put(&mut into, k, val);
            },
            TomlNode::Other(w) => {
                table_put(&mut into, k, w);
            },
        }
    }
    Ok(into)
}

} // verus!
