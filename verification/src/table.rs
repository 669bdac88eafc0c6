//! Keys in string order, and entry lists whose keys ascend: the way a
//! `toml::Table` holds its entries, and the way the dependency list is kept.
use vstd::prelude::*;
use crate::text::chars_of;
use crate::toml_model::{key_lt, keys_sorted};

verus! {

pub proof fn lemma_key_lt_irreflexive(a: Seq<char>)
    ensures
        !key_lt(a, a),
    decreases a.len(),
{
    if a.len() > 0 {
        lemma_key_lt_irreflexive(a.drop_first());
    }
}

pub proof fn lemma_key_lt_asymmetric(a: Seq<char>, b: Seq<char>)
    ensures
        key_lt(a, b) ==> !key_lt(b, a),
    decreases a.len(),
{
    if a.len() > 0 && b.len() > 0 && a[0] == b[0] {
        lemma_key_lt_asymmetric(a.drop_first(), b.drop_first());
    }
}

pub proof fn lemma_key_lt_total(a: Seq<char>, b: Seq<char>)
    ensures
        a != b ==> key_lt(a, b) || key_lt(b, a),
    decreases a.len(),
{
    if a.len() > 0 && b.len() > 0 {
        if a[0] == b[0] {
            lemma_key_lt_total(a.drop_first(), b.drop_first());
            if a.drop_first() == b.drop_first() {
                assert(a =~= seq![a[0]] + a.drop_first());
                assert(b =~= seq![b[0]] + b.drop_first());
            }
        }
    } else if a.len() == 0 && b.len() == 0 {
        assert(a =~= b);
    }
}

pub proof fn lemma_key_lt_transitive(a: Seq<char>, b: Seq<char>, c: Seq<char>)
    requires
        key_lt(a, b),
        key_lt(b, c),
    ensures
        key_lt(a, c),
    decreases a.len(),
{
    if a.len() > 0 && b.len() > 0 && c.len() > 0 {
        if a[0] == b[0] && b[0] == c[0] {
            lemma_key_lt_transitive(a.drop_first(), b.drop_first(), c.drop_first());
        }
    }
}

/// The entries with `(k, v)` put in: in place of the entry with key `k` if
/// there is one, else where `k` belongs in ascending order.
pub open spec fn table_insert<V>(es: Seq<(Seq<char>, V)>, k: Seq<char>, v: V) -> Seq<(Seq<char>, V)>
    decreases es.len(),
{
    if es.len() == 0 {
        seq![(k, v)]
    } else if es[0].0 == k {
        seq![(k, v)] + es.drop_first()
    } else if key_lt(k, es[0].0) {
        seq![(k, v)] + es
    } else {
        seq![es[0]] + table_insert(es.drop_first(), k, v)
    }
}

/// The value of the entry with key `k`, if there is one.
pub open spec fn table_lookup<V>(es: Seq<(Seq<char>, V)>, k: Seq<char>) -> Option<V>
    decreases es.len(),
{
    if es.len() == 0 {
        None
    } else if es[0].0 == k {
        Some(es[0].1)
    } else {
        table_lookup(es.drop_first(), k)
    }
}

/// Where `table_insert` puts `k`: every key before `i` is smaller than `k`, and
/// the key at `i`, if any, is not.
pub proof fn lemma_table_insert_at<V>(es: Seq<(Seq<char>, V)>, k: Seq<char>, v: V, i: int)
    requires
        keys_sorted(es),
        0 <= i <= es.len(),
        forall|t: int| 0 <= t < i ==> key_lt(#[trigger] es[t].0, k),
        i < es.len() ==> !key_lt(es[i].0, k),
    ensures
        i < es.len() && es[i].0 == k ==> table_insert(es, k, v) == es.update(i, (k, v)),
        !(i < es.len() && es[i].0 == k) ==> table_insert(es, k, v) == es.insert(i, (k, v)),
    decreases es.len(),
{
    if es.len() == 0 {
        assert(es.insert(i, (k, v)) =~= seq![(k, v)]);
    } else if i == 0 {
        if es[0].0 == k {
            assert(es.update(0, (k, v)) =~= seq![(k, v)] + es.drop_first());
        } else {
            lemma_key_lt_total(es[0].0, k);
            assert(es.insert(0, (k, v)) =~= seq![(k, v)] + es);
        }
    } else {
        lemma_key_lt_asymmetric(es[0].0, k);
        if es[0].0 == k {
            lemma_key_lt_irreflexive(k);
        }
        let rest = es.drop_first();
        assert forall|t: int| 0 <= t < i - 1 implies key_lt(#[trigger] rest[t].0, k) by {
            assert(rest[t] == es[t + 1]);
        }
        assert forall|a: int, b: int| 0 <= a < b < rest.len() implies key_lt(
            #[trigger] rest[a].0,
            #[trigger] rest[b].0,
        ) by {
            assert(rest[a] == es[a + 1] && rest[b] == es[b + 1]);
        }
        lemma_table_insert_at(rest, k, v, i - 1);
        if i < es.len() && es[i].0 == k {
            assert(es.update(i, (k, v)) =~= seq![es[0]] + rest.update(i - 1, (k, v)));
        } else {
            assert(es.insert(i, (k, v)) =~= seq![es[0]] + rest.insert(i - 1, (k, v)));
        }
    }
}

/// Putting an entry in keeps the keys strictly ascending.
pub proof fn lemma_table_insert_sorted<V>(es: Seq<(Seq<char>, V)>, k: Seq<char>, v: V)
    requires
        keys_sorted(es),
    ensures
        keys_sorted(table_insert(es, k, v)),
    decreases es.len(),
{
    if es.len() > 0 && es[0].0 != k && !key_lt(k, es[0].0) {
        let rest = es.drop_first();
        assert forall|a: int, b: int| 0 <= a < b < rest.len() implies key_lt(
            #[trigger] rest[a].0,
            #[trigger] rest[b].0,
        ) by {
            assert(rest[a] == es[a + 1] && rest[b] == es[b + 1]);
        }
        lemma_table_insert_sorted(rest, k, v);
        lemma_key_lt_total(es[0].0, k);
        let ins = table_insert(rest, k, v);
        lemma_table_insert_keys(rest, k, v);
        let r = seq![es[0]] + ins;
        assert forall|a: int, b: int| 0 <= a < b < r.len() implies key_lt(
            #[trigger] r[a].0,
            #[trigger] r[b].0,
        ) by {
            if a == 0 {
                let key = r[b].0;
                assert(key == ins[b - 1].0);
                if key == k {
                } else {
                    let t = choose|t: int| 0 <= t < rest.len() && rest[t].0 == key;
                    assert(rest[t] == es[t + 1]);
                }
            } else {
                assert(r[a] == ins[a - 1] && r[b] == ins[b - 1]);
            }
        }
    } else if es.len() > 0 && es[0].0 == k {
        let r = seq![(k, v)] + es.drop_first();
        assert forall|a: int, b: int| 0 <= a < b < r.len() implies key_lt(
            #[trigger] r[a].0,
            #[trigger] r[b].0,
        ) by {
            assert(r[b] == es[b]);
            if a > 0 {
                assert(r[a] == es[a]);
            }
        }
    } else if es.len() > 0 {
        let r = seq![(k, v)] + es;
        assert forall|a: int, b: int| 0 <= a < b < r.len() implies key_lt(
            #[trigger] r[a].0,
            #[trigger] r[b].0,
        ) by {
            assert(r[b] == es[b - 1]);
            if a > 0 {
                assert(r[a] == es[a - 1]);
            } else if b - 1 > 0 {
                lemma_key_lt_transitive(k, es[0].0, es[b - 1].0);
            }
        }
    }
}

/// The keys after putting `(k, v)` in are `k` and the keys before.
pub proof fn lemma_table_insert_keys<V>(es: Seq<(Seq<char>, V)>, k: Seq<char>, v: V)
    ensures
        forall|b: int|
            0 <= b < table_insert(es, k, v).len() ==> (#[trigger] table_insert(es, k, v)[b]).0
                == k || exists|t: int| 0 <= t < es.len() && es[t].0 == table_insert(es, k, v)[b].0,
    decreases es.len(),
{
    if es.len() > 0 && es[0].0 != k && !key_lt(k, es[0].0) {
        lemma_table_insert_keys(es.drop_first(), k, v);
        let ins = table_insert(es.drop_first(), k, v);
        assert forall|b: int| 0 <= b < table_insert(es, k, v).len() implies (
        #[trigger] table_insert(es, k, v)[b]).0 == k || exists|t: int|
            0 <= t < es.len() && es[t].0 == table_insert(es, k, v)[b].0 by {
            if b == 0 {
                assert(es[0].0 == table_insert(es, k, v)[0].0);
            } else {
                assert(table_insert(es, k, v)[b] == ins[b - 1]);
                if ins[b - 1].0 != k {
                    let t = choose|t: int|
                        0 <= t < es.drop_first().len() && es.drop_first()[t].0 == ins[b - 1].0;
                    assert(es[t + 1] == es.drop_first()[t]);
                }
            }
        }
    } else if es.len() > 0 && es[0].0 == k {
        assert forall|b: int| 0 <= b < table_insert(es, k, v).len() implies (
        #[trigger] table_insert(es, k, v)[b]).0 == k || exists|t: int|
            0 <= t < es.len() && es[t].0 == table_insert(es, k, v)[b].0 by {
            if b > 0 {
                assert(table_insert(es, k, v)[b] == es[b]);
            }
        }
    } else if es.len() > 0 {
        assert forall|b: int| 0 <= b < table_insert(es, k, v).len() implies (
        #[trigger] table_insert(es, k, v)[b]).0 == k || exists|t: int|
            0 <= t < es.len() && es[t].0 == table_insert(es, k, v)[b].0 by {
            if b > 0 {
                assert(table_insert(es, k, v)[b] == es[b - 1]);
            }
        }
    }
}

/// Looking up after putting `(k, v)` in gives `v` under `k` and what was
/// there before under any other key.
pub proof fn lemma_lookup_insert<V>(es: Seq<(Seq<char>, V)>, k: Seq<char>, v: V, q: Seq<char>)
    ensures
        table_lookup(table_insert(es, k, v), q) == if q == k {
            Some(v)
        } else {
            table_lookup(es, q)
        },
    decreases es.len(),
{
    let r = table_insert(es, k, v);
    if es.len() == 0 {
        assert(r == seq![(k, v)]);
        assert(r.drop_first() =~= Seq::<(Seq<char>, V)>::empty());
        assert(table_lookup(r.drop_first(), q) is None);
    } else if es[0].0 == k {
        assert(r == seq![(k, v)] + es.drop_first());
        assert(r[0] == (k, v));
        assert(r.drop_first() =~= es.drop_first());
    } else if key_lt(k, es[0].0) {
        assert(r == seq![(k, v)] + es);
        assert(r[0] == (k, v));
        assert(r.drop_first() =~= es);
    } else {
        let rest = es.drop_first();
        lemma_lookup_insert(rest, k, v, q);
        assert(r == seq![es[0]] + table_insert(rest, k, v));
        assert(r[0] == es[0]);
        assert(r.drop_first() =~= table_insert(rest, k, v));
    }
}

/// A key that no entry has is looked up as nothing; one that an entry has
/// is found, with the value of some entry of that key.
pub proof fn lemma_lookup_found<V>(es: Seq<(Seq<char>, V)>, q: Seq<char>)
    ensures
        (forall|i: int| 0 <= i < es.len() ==> (#[trigger] es[i]).0 != q) ==> table_lookup(es, q)
            is None,
        table_lookup(es, q) matches Some(v) ==> exists|i: int|
            0 <= i < es.len() && (#[trigger] es[i]) == (q, v),
        (exists|i: int| 0 <= i < es.len() && (#[trigger] es[i]).0 == q) ==> table_lookup(es, q)
            is Some,
    decreases es.len(),
{
    if es.len() > 0 {
        let rest = es.drop_first();
        lemma_lookup_found(rest, q);
        if es[0].0 != q {
            if let Some(v) = table_lookup(es, q) {
                let i = choose|i: int| 0 <= i < rest.len() && (#[trigger] rest[i]) == (q, v);
                assert(es[i + 1] == rest[i]);
            }
            if exists|i: int| 0 <= i < es.len() && (#[trigger] es[i]).0 == q {
                let i = choose|i: int| 0 <= i < es.len() && (#[trigger] es[i]).0 == q;
                assert(rest[i - 1] == es[i]);
            }
            assert forall|i: int| 0 <= i < rest.len() && (forall|j: int|
                0 <= j < es.len() ==> (#[trigger] es[j]).0 != q) implies (#[trigger] rest[i]).0
                != q by {
                assert(rest[i] == es[i + 1]);
            }
        } else {
            assert(es[0] == (q, es[0].1));
        }
    }
}

/// In a table with strictly ascending keys, every entry is what its key is
/// looked up as.
pub proof fn lemma_lookup_entry<V>(es: Seq<(Seq<char>, V)>, i: int)
    requires
        keys_sorted(es),
        0 <= i < es.len(),
    ensures
        table_lookup(es, es[i].0) == Some(es[i].1),
    decreases i,
{
    if i > 0 {
        let rest = es.drop_first();
        assert forall|a: int, b: int| 0 <= a < b < rest.len() implies key_lt(
            #[trigger] rest[a].0,
            #[trigger] rest[b].0,
        ) by {
            assert(rest[a] == es[a + 1] && rest[b] == es[b + 1]);
        }
        assert(rest[i - 1] == es[i]);
        lemma_lookup_entry(rest, i - 1);
        assert(key_lt(es[0].0, es[i].0));
        lemma_key_lt_irreflexive(es[0].0);
    }
}

/// Two tables with strictly ascending keys that look up every key alike are
/// the same.
pub proof fn lemma_tables_equal<V>(a: Seq<(Seq<char>, V)>, b: Seq<(Seq<char>, V)>)
    requires
        keys_sorted(a),
        keys_sorted(b),
        forall|k: Seq<char>| #[trigger] table_lookup(a, k) == table_lookup(b, k),
    ensures
        a == b,
    decreases a.len() + b.len(),
{
    if a.len() == 0 && b.len() > 0 {
        lemma_lookup_entry(b, 0);
        lemma_lookup_found(a, b[0].0);
    } else if a.len() > 0 && b.len() == 0 {
        lemma_lookup_entry(a, 0);
        lemma_lookup_found(b, a[0].0);
    } else if a.len() > 0 {
        let ka = a[0].0;
        let kb = b[0].0;
        lemma_lookup_entry(a, 0);
        lemma_lookup_entry(b, 0);
        lemma_lookup_found(a, kb);
        lemma_lookup_found(b, ka);
        assert(table_lookup(b, ka) == Some(a[0].1));
        assert(table_lookup(a, kb) == Some(b[0].1));
        if ka != kb {
            let i = choose|i: int| 0 <= i < b.len() && (#[trigger] b[i]) == (ka, a[0].1);
            let j = choose|j: int| 0 <= j < a.len() && (#[trigger] a[j]) == (kb, b[0].1);
            assert(i > 0 && j > 0);
            assert(key_lt(kb, ka));
            assert(key_lt(ka, kb));
            lemma_key_lt_asymmetric(ka, kb);
        }
        let ra = a.drop_first();
        let rb = b.drop_first();
        assert forall|x: int, y: int| 0 <= x < y < ra.len() implies key_lt(
            #[trigger] ra[x].0,
            #[trigger] ra[y].0,
        ) by {
            assert(ra[x] == a[x + 1] && ra[y] == a[y + 1]);
        }
        assert forall|x: int, y: int| 0 <= x < y < rb.len() implies key_lt(
            #[trigger] rb[x].0,
            #[trigger] rb[y].0,
        ) by {
            assert(rb[x] == b[x + 1] && rb[y] == b[y + 1]);
        }
        assert forall|k: Seq<char>| #[trigger] table_lookup(ra, k) == table_lookup(rb, k) by {
            if k == ka {
                assert forall|i: int| 0 <= i < ra.len() implies (#[trigger] ra[i]).0 != k by {
                    assert(ra[i] == a[i + 1]);
                    lemma_key_lt_irreflexive(ka);
                }
                assert forall|i: int| 0 <= i < rb.len() implies (#[trigger] rb[i]).0 != k by {
                    assert(rb[i] == b[i + 1]);
                    lemma_key_lt_irreflexive(ka);
                }
                lemma_lookup_found(ra, k);
                lemma_lookup_found(rb, k);
            } else {
                assert(table_lookup(a, k) == table_lookup(ra, k));
                assert(table_lookup(b, k) == table_lookup(rb, k));
            }
        }
        lemma_tables_equal(ra, rb);
        assert(a =~= seq![a[0]] + ra);
        assert(b =~= seq![b[0]] + rb);
    }
}

/// Is the key `a` smaller than the key `b`?
pub fn key_less(a: &str, b: &str) -> (r: bool)
    ensures
        r == key_lt(a@, b@),
{
    let av = chars_of(a);
    let bv = chars_of(b);
    let mut i: usize = 0;
    assert(a@.skip(0) =~= a@);
    assert(b@.skip(0) =~= b@);
    while i < av.len() && i < bv.len() && av[i] == bv[i]
        invariant
            av@ == a@,
            bv@ == b@,
            i <= av@.len(),
            i <= bv@.len(),
            key_lt(a@, b@) == key_lt(a@.skip(i as int), b@.skip(i as int)),
        decreases av@.len() - i,
    {
        let ghost sa = a@.skip(i as int);
        let ghost sb = b@.skip(i as int);
        assert(sa.drop_first() =~= a@.skip(i + 1));
        assert(sb.drop_first() =~= b@.skip(i + 1));
        i = i + 1;
    }
    if i == av.len() {
        i < bv.len()
    } else if i == bv.len() {
        false
    } else {
        assert(a@.skip(i as int)[0] == av@[i as int]);
        assert(b@.skip(i as int)[0] == bv@[i as int]);
        av[i] < bv[i]
    }
}

} // verus!
