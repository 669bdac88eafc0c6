//! The items put in front of expression and loop scripts, in a stable
//! order so that the same arguments give the same package.
use vstd::prelude::*;
use crate::command::strings_view;
use crate::table::{
    key_less, lemma_key_lt_asymmetric, lemma_key_lt_irreflexive, lemma_key_lt_total,
    lemma_key_lt_transitive,
};
use crate::toml_model::key_lt;
use crate::text::{push_str, string_of};

verus! {

broadcast use vstd::seq_lib::group_to_multiset_ensures;

/// `s` with `x` put in before the first string that is not smaller than `x`.
pub open spec fn insert_sorted(s: Seq<Seq<char>>, x: Seq<char>) -> Seq<Seq<char>>
    decreases s.len(),
{
    if s.len() == 0 {
        seq![x]
    } else if !key_lt(s[0], x) {
        seq![x] + s
    } else {
        seq![s[0]] + insert_sorted(s.drop_first(), x)
    }
}

/// The strings sorted by inserting them one after the other.
pub open spec fn sort_strings_spec(s: Seq<Seq<char>>) -> Seq<Seq<char>>
    decreases s.len(),
{
    if s.len() == 0 {
        Seq::empty()
    } else {
        insert_sorted(sort_strings_spec(s.drop_last()), s.last())
    }
}

/// Are the strings in ascending order?
pub open spec fn strings_sorted(s: Seq<Seq<char>>) -> bool {
    forall|i: int, j: int| 0 <= i < j < s.len() ==> !key_lt(#[trigger] s[j], #[trigger] s[i])
}

pub proof fn lemma_insert_sorted_at(s: Seq<Seq<char>>, x: Seq<char>, i: int)
    requires
        0 <= i <= s.len(),
        forall|t: int| 0 <= t < i ==> key_lt(#[trigger] s[t], x),
        i < s.len() ==> !key_lt(s[i], x),
    ensures
        insert_sorted(s, x) == s.insert(i, x),
    decreases s.len(),
{
    if s.len() == 0 {
        assert(s.insert(i, x) =~= seq![x]);
    } else if i == 0 {
        assert(s.insert(0, x) =~= seq![x] + s);
    } else {
        let rest = s.drop_first();
        assert forall|t: int| 0 <= t < i - 1 implies key_lt(#[trigger] rest[t], x) by {
            assert(rest[t] == s[t + 1]);
        }
        lemma_insert_sorted_at(rest, x, i - 1);
        assert(s.insert(i, x) =~= seq![s[0]] + rest.insert(i - 1, x));
    }
}

/// Sorts strings in ascending order.
pub fn sort_strings(items: Vec<String>) -> (r: Vec<String>)
    ensures
        strings_view(r@) == sort_strings_spec(strings_view(items@)),
{
    let ghost iv = strings_view(items@);
    let mut out: Vec<String> = Vec::new();
    let mut i: usize = 0;
    assert(iv.take(0) =~= Seq::<Seq<char>>::empty());
    while i < items.len()
        invariant
            iv == strings_view(items@),
            i <= items@.len(),
            strings_view(out@) == sort_strings_spec(iv.take(i as int)),
        decreases items@.len() - i,
    {
        let x = items[i].clone();
        let ghost om = strings_view(out@);
        let mut k: usize = 0;
        while k < out.len() && key_less(out[k].as_str(), x.as_str())
            invariant
                om == strings_view(out@),
                k <= out@.len(),
                forall|t: int| 0 <= t < k ==> key_lt(#[trigger] om[t], x@),
            decreases out@.len() - k,
        {
            k = k + 1;
        }
        proof {
            lemma_insert_sorted_at(om, x@, k as int);
        }
        let ghost xv = x@;
        out.insert(k, x);
        assert(strings_view(out@) =~= om.insert(k as int, xv));
        assert(iv.take(i + 1).drop_last() =~= iv.take(i as int));
        assert(iv.take(i + 1).last() == items@[i as int]@);
        i = i + 1;
    }
    assert(iv.take(i as int) =~= iv);
    out
}


/// Inserting into sorted strings keeps them sorted and adds just `x`.
pub proof fn lemma_insert_sorted(s: Seq<Seq<char>>, x: Seq<char>)
    requires
        strings_sorted(s),
    ensures
        strings_sorted(insert_sorted(s, x)),
        insert_sorted(s, x).to_multiset() == s.to_multiset().insert(x),
    decreases s.len(),
{
    let r = insert_sorted(s, x);
    if s.len() == 0 {
        assert(r =~= seq![x]);
        assert(s =~= Seq::<Seq<char>>::empty());
        assert(seq![x] =~= Seq::<Seq<char>>::empty().push(x));
    } else if !key_lt(s[0], x) {
        assert(r =~= s.insert(0, x));
        assert forall|i: int, j: int| 0 <= i < j < r.len() implies !key_lt(
            #[trigger] r[j],
            #[trigger] r[i],
        ) by {
            if i == 0 {
                assert(r[j] == s[j - 1]);
                lemma_key_lt_total(x, s[0]);
                if j - 1 > 0 {
                    assert(!key_lt(s[j - 1], s[0]));
                }
                if key_lt(s[j - 1], x) {
                    if x == s[0] {
                    } else if key_lt(x, s[0]) {
                        lemma_key_lt_transitive(s[j - 1], x, s[0]);
                    }
                }
            } else {
                assert(r[i] == s[i - 1] && r[j] == s[j - 1]);
            }
        }
    } else {
        let rest = s.drop_first();
        assert forall|i: int, j: int| 0 <= i < j < rest.len() implies !key_lt(
            #[trigger] rest[j],
            #[trigger] rest[i],
        ) by {
            assert(rest[i] == s[i + 1] && rest[j] == s[j + 1]);
        }
        lemma_insert_sorted(rest, x);
        let t = insert_sorted(rest, x);
        assert(r =~= seq![s[0]] + t);
        assert(s =~= seq![s[0]] + rest);
        assert(r.to_multiset() =~= s.to_multiset().insert(x)) by {
            vstd::seq_lib::lemma_multiset_commutative(seq![s[0]], t);
            vstd::seq_lib::lemma_multiset_commutative(seq![s[0]], rest);
            assert(t + seq![s[0]] =~= t.push(s[0]));
            assert(rest + seq![s[0]] =~= rest.push(s[0]));
        }
        assert forall|i: int, j: int| 0 <= i < j < r.len() implies !key_lt(
            #[trigger] r[j],
            #[trigger] r[i],
        ) by {
            if i == 0 {
                let y = r[j];
                assert(y == t[j - 1]);
                assert(t.contains(y));
                assert(t.to_multiset().count(y) > 0);
                if y == x {
                    lemma_key_lt_asymmetric(s[0], x);
                } else {
                    assert(rest.to_multiset().count(y) > 0);
                    assert(rest.contains(y));
                    let k = choose|k: int| 0 <= k < rest.len() && rest[k] == y;
                    assert(s[k + 1] == y);
                }
            } else {
                assert(r[i] == t[i - 1] && r[j] == t[j - 1]);
            }
        }
    }
}

/// Sorting gives the same strings, in ascending order.
pub proof fn lemma_sort_strings(s: Seq<Seq<char>>)
    ensures
        strings_sorted(sort_strings_spec(s)),
        sort_strings_spec(s).to_multiset() == s.to_multiset(),
    decreases s.len(),
{
    if s.len() == 0 {
        assert(sort_strings_spec(s) =~= s);
    } else {
        lemma_sort_strings(s.drop_last());
        lemma_insert_sorted(sort_strings_spec(s.drop_last()), s.last());
        assert(s =~= s.drop_last().push(s.last()));
    }
}

/// Sorted strings are fixed by which strings they are: two sorted orders of
/// the same strings are the same.
pub proof fn lemma_sorted_unique(a: Seq<Seq<char>>, b: Seq<Seq<char>>)
    requires
        strings_sorted(a),
        strings_sorted(b),
        a.to_multiset() == b.to_multiset(),
    ensures
        a == b,
    decreases a.len(),
{
    vstd::seq_lib::to_multiset_len(a);
    vstd::seq_lib::to_multiset_len(b);
    if a.len() > 0 {
        vstd::seq_lib::to_multiset_contains(a, b[0]);
        vstd::seq_lib::to_multiset_contains(b, a[0]);
        assert(a.contains(a[0]));
        assert(b.contains(b[0]));
        vstd::seq_lib::to_multiset_contains(a, a[0]);
        vstd::seq_lib::to_multiset_contains(b, b[0]);
        let i = choose|i: int| 0 <= i < a.len() && a[i] == b[0];
        let j = choose|j: int| 0 <= j < b.len() && b[j] == a[0];
        assert(!key_lt(b[0], a[0])) by {
            if i > 0 {
                assert(!key_lt(a[i], a[0]));
            } else {
                lemma_key_lt_irreflexive(a[0]);
            }
        }
        assert(!key_lt(a[0], b[0])) by {
            if j > 0 {
                assert(!key_lt(b[j], b[0]));
            } else {
                lemma_key_lt_irreflexive(b[0]);
            }
        }
        lemma_key_lt_total(a[0], b[0]);
        let ra = a.drop_first();
        let rb = b.drop_first();
        vstd::seq_lib::to_multiset_remove(a, 0);
        vstd::seq_lib::to_multiset_remove(b, 0);
        assert(a.remove(0) =~= ra);
        assert(b.remove(0) =~= rb);
        assert forall|x: int, y: int| 0 <= x < y < ra.len() implies !key_lt(
            #[trigger] ra[y],
            #[trigger] ra[x],
        ) by {
            assert(ra[x] == a[x + 1] && ra[y] == a[y + 1]);
        }
        assert forall|x: int, y: int| 0 <= x < y < rb.len() implies !key_lt(
            #[trigger] rb[y],
            #[trigger] rb[x],
        ) by {
            assert(rb[x] == b[x + 1] && rb[y] == b[y + 1]);
        }
        lemma_sorted_unique(ra, rb);
        assert(a =~= seq![a[0]] + ra);
        assert(b =~= seq![b[0]] + rb);
    }
}

/// Sorting does not depend on the order of what is sorted: the same strings
/// in any order sort the same.
pub proof fn law_sort_any_order(s1: Seq<Seq<char>>, s2: Seq<Seq<char>>)
    requires
        s1.to_multiset() == s2.to_multiset(),
    ensures
        sort_strings_spec(s1) == sort_strings_spec(s2),
{
    lemma_sort_strings(s1);
    lemma_sort_strings(s2);
    lemma_sorted_unique(sort_strings_spec(s1), sort_strings_spec(s2));
}

/// The `#![feature(..)]` item for an unstable feature.
pub open spec fn feature_item(f: Seq<char>) -> Seq<char> {
    "#![feature("@ + f + ")]"@
}

/// The prelude items: one `#![feature(..)]` for each unstable feature,
/// then the crate items given, all sorted.
pub open spec fn prelude_items_spec(features: Seq<Seq<char>>, crate_items: Seq<Seq<char>>) -> Seq<
    Seq<char>,
> {
    sort_strings_spec(features.map_values(|f: Seq<char>| feature_item(f)) + crate_items)
}

/// The prelude items for the given unstable features and crate items,
/// sorted so that they come out the same whatever the order of the
/// arguments.
pub fn prelude_items(unstable_features: &Vec<String>, crate_items: &Vec<String>) -> (r: Vec<
    String,
>)
    ensures
        strings_view(r@) == prelude_items_spec(
            strings_view(unstable_features@),
            strings_view(crate_items@),
        ),
        strings_sorted(strings_view(r@)),
        strings_view(r@).to_multiset() == (strings_view(unstable_features@).map_values(
            |f: Seq<char>| feature_item(f),
        ) + strings_view(crate_items@)).to_multiset(),
{
    let ghost fv = strings_view(unstable_features@).map_values(|f: Seq<char>| feature_item(f));
    let mut items: Vec<String> = Vec::new();
    let mut i: usize = 0;
    while i < unstable_features.len()
        invariant
            i <= unstable_features@.len(),
            fv == strings_view(unstable_features@).map_values(|f: Seq<char>| feature_item(f)),
            strings_view(items@) == fv.take(i as int),
        decreases unstable_features@.len() - i,
    {
        let mut v: Vec<char> = Vec::new();
        push_str(&mut v, "#![feature(");
        push_str(&mut v, unstable_features[i].as_str());
        push_str(&mut v, ")]");
        let item = string_of(v.as_slice());
        let ghost i0 = items@;
        items.push(item);
        assert(strings_view(items@) =~= strings_view(i0).push(item@));
        assert(fv.take(i + 1) =~= fv.take(i as int).push(item@));
        i = i + 1;
    }
    assert(fv.take(i as int) =~= fv);
    let mut k: usize = 0;
    while k < crate_items.len()
        invariant
            i == unstable_features@.len(),
            k <= crate_items@.len(),
            strings_view(items@) == fv + strings_view(crate_items@).take(k as int),
        decreases crate_items@.len() - k,
    {
        let c = crate_items[k].clone();
        let ghost i0 = items@;
        items.push(c);
        assert(strings_view(items@) =~= strings_view(i0).push(c@));
        assert(strings_view(crate_items@).take(k + 1) =~= strings_view(crate_items@).take(
            k as int,
        ).push(c@));
        k = k + 1;
    }
    assert(strings_view(crate_items@).take(k as int) =~= strings_view(crate_items@));
    let r = sort_strings(items);
    proof {
        lemma_sort_strings(fv + strings_view(crate_items@));
    }
    r
}

} // verus!
