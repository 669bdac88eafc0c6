//! Cleaning the cache of generated packages: which directories go.
use vstd::prelude::*;
use crate::command::strings_view;

verus! {

/// An entry of the generated projects cache, as found on disk.
#[derive(Debug)]
pub struct CacheEntry {
    pub path: String,
    pub is_file: bool,
    /// When the entry was last written, in milliseconds since the Unix epoch.
    pub modified: u128,
}

/// What cleaning the cache does.
#[derive(Debug)]
pub struct CleanPlan {
    /// Remove the whole binary cache?
    pub clear_binaries: bool,
    /// The package directories to remove, in the order found.
    pub remove: Vec<String>,
}

/// A package directory goes when it was last written at or before the
/// cutoff; files stay.
pub open spec fn is_stale(e: CacheEntry, cutoff: int) -> bool {
    !e.is_file && e.modified <= cutoff
}

/// The paths of the stale entries, in order.
pub open spec fn stale_paths(es: Seq<CacheEntry>, cutoff: int) -> Seq<Seq<char>>
    decreases es.len(),
{
    if es.len() == 0 {
        Seq::empty()
    } else {
        let rest = stale_paths(es.drop_last(), cutoff);
        if is_stale(es.last(), cutoff) {
            rest.push(es.last().path@)
        } else {
            rest
        }
    }
}

/// A path is among the stale paths just when a stale entry has it.
pub proof fn lemma_stale_paths(es: Seq<CacheEntry>, cutoff: int, p: Seq<char>)
    ensures
        stale_paths(es, cutoff).contains(p) <==> exists|i: int|
            0 <= i < es.len() && is_stale(es[i], cutoff) && (#[trigger] es[i]).path@ == p,
    decreases es.len(),
{
    if es.len() > 0 {
        let init = es.drop_last();
        lemma_stale_paths(init, cutoff, p);
        let rest = stale_paths(init, cutoff);
        if stale_paths(es, cutoff).contains(p) {
            if is_stale(es.last(), cutoff) && es.last().path@ == p {
                assert(es[es.len() - 1] == es.last());
            } else {
                if is_stale(es.last(), cutoff) {
                    let k = choose|k: int|
                        0 <= k < rest.push(es.last().path@).len() && rest.push(
                            es.last().path@,
                        )[k] == p;
                    assert(k < rest.len());
                    assert(rest[k] == p);
                }
                assert(rest.contains(p));
                let i = choose|i: int|
                    0 <= i < init.len() && is_stale(init[i], cutoff) && (#[trigger] init[i]).path@
                        == p;
                assert(es[i] == init[i]);
            }
        }
        if exists|i: int|
            0 <= i < es.len() && is_stale(es[i], cutoff) && (#[trigger] es[i]).path@ == p {
            let i = choose|i: int|
                0 <= i < es.len() && is_stale(es[i], cutoff) && (#[trigger] es[i]).path@ == p;
            if i == es.len() - 1 {
                assert(stale_paths(es, cutoff) == rest.push(p));
                assert(rest.push(p)[rest.len() as int] == p);
            } else {
                assert(init[i] == es[i]);
                assert(rest.contains(p));
                let k = choose|k: int| 0 <= k < rest.len() && rest[k] == p;
                if is_stale(es.last(), cutoff) {
                    assert(rest.push(es.last().path@)[k] == p);
                }
            }
        }
    }
}

/// Decides what cleaning the cache removes, `now` being the current time and
/// `max_age` the age in milliseconds from which a package directory goes:
/// every directory last written `max_age` or more before `now`. With an age
/// of 0 the binary cache goes too.
pub fn clean_cache(max_age: u128, now: u128, entries: &Vec<CacheEntry>) -> (r: CleanPlan)
    requires
        max_age <= now,
    ensures
        r.clear_binaries == (max_age == 0),
        strings_view(r.remove@) == stale_paths(entries@, now - max_age),
        forall|p: Seq<char>|
            #![trigger strings_view(r.remove@).contains(p)]
            strings_view(r.remove@).contains(p) <==> exists|i: int|
                0 <= i < entries@.len() && is_stale(entries@[i], now - max_age) && (
                #[trigger] entries@[i]).path@ == p,
{
    let cutoff = now - max_age;
    let mut remove: Vec<String> = Vec::new();
    let mut i: usize = 0;
    while i < entries.len()
        invariant
            cutoff == now - max_age,
            i <= entries@.len(),
            strings_view(remove@) == stale_paths(entries@.take(i as int), cutoff as int),
        decreases entries@.len() - i,
    {
        let e = &entries[i];
        assert(entries@.take(i + 1).drop_last() =~= entries@.take(i as int));
        assert(entries@.take(i + 1).last() == entries@[i as int]);
        if !e.is_file && e.modified <= cutoff {
            let p = e.path.clone();
            let ghost r0 = remove@;
            remove.push(p);
            assert(strings_view(remove@) =~= strings_view(r0).push(p@));
        }
        i = i + 1;
    }
    assert(entries@.take(i as int) =~= entries@);
    assert forall|p: Seq<char>| #![trigger strings_view(remove@).contains(p)]
        strings_view(remove@).contains(p) <==> exists|i: int|
            0 <= i < entries@.len() && is_stale(entries@[i], now - max_age) && (
            #[trigger] entries@[i]).path@ == p by {
        lemma_stale_paths(entries@, now - max_age, p);
    }
    CleanPlan { clear_binaries: max_age == 0, remove }
}

} // verus!
