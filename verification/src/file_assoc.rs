//! The text that associating `.ers` files with the program puts into the
//! Windows registry: the handler command, and the `PATHEXT` list with or
//! without `.ers`.
use vstd::prelude::*;
use crate::input::{ascii_lower, is_ascii_upper};
use crate::manifest::lemma_find_char_skip;
use crate::text::{
    chars_of, find_char, find_char_exec, lemma_find_char, push_range, push_str, split_spec,
    string_of,
};

verus! {

/// A character with ASCII upper-case letters made lower-case.
pub open spec fn fold_ascii(c: char) -> char {
    if is_ascii_upper(c) {
        ascii_lower(c)
    } else {
        c
    }
}

/// The same text up to the case of ASCII letters (`str::eq_ignore_ascii_case`).
pub open spec fn eq_ignore_ascii_case(a: Seq<char>, b: Seq<char>) -> bool {
    &&& a.len() == b.len()
    &&& forall|i: int| 0 <= i < a.len() ==> fold_ascii(#[trigger] a[i]) == fold_ascii(b[i])
}

/// Is an entry of `PATHEXT` the `.ers` extension, in any case?
pub open spec fn is_ers(e: Seq<char>) -> bool {
    eq_ignore_ascii_case(e, ".ers"@)
}

/// Does the `PATHEXT` list (entries separated by `;`) hold `.ers`?
pub open spec fn has_ers(pathext: Seq<char>) -> bool {
    exists|i: int|
        0 <= i < split_spec(pathext, ';').len() && is_ers(#[trigger] split_spec(pathext, ';')[i])
}

/// Entries put back together with `;` between them.
pub open spec fn join_entries(es: Seq<Seq<char>>) -> Seq<char>
    decreases es.len(),
{
    if es.len() == 0 {
        Seq::empty()
    } else if es.len() == 1 {
        es[0]
    } else {
        join_entries(es.drop_last()) + seq![';'] + es.last()
    }
}

/// The entries of a `PATHEXT` list other than `.ers`, in order.
pub open spec fn entries_without_ers(es: Seq<Seq<char>>) -> Seq<Seq<char>>
    decreases es.len(),
{
    if es.len() == 0 {
        es
    } else {
        let rest = entries_without_ers(es.drop_last());
        if is_ers(es.last()) {
            rest
        } else {
            rest.push(es.last())
        }
    }
}

pub(crate) fn fold_ascii_exec(c: char) -> (r: char)
    ensures
        r == fold_ascii(c),
{
    if 'A' <= c && c <= 'Z' {
        ((c as u8) + 32) as char
    } else {
        c
    }
}

fn is_ers_exec(e: &Vec<char>) -> (r: bool)
    ensures
        r == is_ers(e@),
{
    let ers = chars_of(".ers");
    if e.len() != ers.len() {
        return false;
    }
    let mut i: usize = 0;
    while i < e.len()
        invariant
            ers@ == ".ers"@,
            e@.len() == ers@.len(),
            i <= e@.len(),
            forall|k: int| 0 <= k < i ==> fold_ascii(#[trigger] e@[k]) == fold_ascii(ers@[k]),
        decreases e@.len() - i,
    {
        if fold_ascii_exec(e[i]) != fold_ascii_exec(ers[i]) {
            return false;
        }
        i = i + 1;
    }
    true
}

/// The pieces of `s` between the occurrences of `c`.
fn split_exec(s: &Vec<char>, c: char) -> (r: Vec<Vec<char>>)
    ensures
        r@.map_values(|v: Vec<char>| v@) == split_spec(s@, c),
{
    let ghost all = split_spec(s@, c);
    let mut r: Vec<Vec<char>> = Vec::new();
    let mut p: usize = 0;
    assert(s@.skip(0) =~= s@);
    loop
        invariant
            p <= s@.len(),
            all == split_spec(s@, c),
            r@.len() <= all.len(),
            r@.map_values(|v: Vec<char>| v@) == all.take(r@.len() as int),
            all.skip(r@.len() as int) == split_spec(s@.skip(p as int), c),
        decreases s@.len() - p,
    {
        let j = find_char_exec(s, c, p);
        proof {
            lemma_find_char(s@, c, p as int);
            lemma_find_char_skip(s@, c, p as int);
        }
        let ghost rest = s@.skip(p as int);
        let ghost n = r@.len() as int;
        assert(split_spec(rest, c).len() >= 1);
        let mut piece: Vec<char> = Vec::new();
        push_range(&mut piece, s, p, j);
        assert(all.skip(n)[0] == piece@) by {
            if j < s@.len() {
                assert(rest.take(j - p) =~= piece@);
            } else {
                assert(rest =~= piece@);
            }
        }
        let ghost r0 = r@;
        r.push(piece);
        assert(r@.map_values(|v: Vec<char>| v@) =~= r0.map_values(|v: Vec<char>| v@).push(
            all.skip(n)[0],
        ));
        assert(all.take(n + 1) =~= all.take(n).push(all[n]));
        if j < s.len() {
            assert(all.skip(n).drop_first() =~= all.skip(n + 1));
            assert(rest.skip(j - p + 1) =~= s@.skip(j + 1));
            p = j + 1;
        } else {
            assert(all.skip(n).len() == 1);
            assert(all.take(n + 1) =~= all);
            return r;
        }
    }
}

/// `PATHEXT` with `.ERS` added at the end, for installing the association;
/// `None` when it holds `.ers` (in any case) already.
pub fn pathext_with_ers(pathext: &str) -> (r: Option<String>)
    ensures
        has_ers(pathext@) ==> r is None,
        !has_ers(pathext@) ==> (r matches Some(x) && x@ == join_entries(
            split_spec(pathext@, ';').push(".ERS"@),
        )),
{
    let s = chars_of(pathext);
    let parts = split_exec(&s, ';');
    let ghost pv = parts@.map_values(|v: Vec<char>| v@);
    let mut i: usize = 0;
    while i < parts.len()
        invariant
            pv == parts@.map_values(|v: Vec<char>| v@),
            pv == split_spec(pathext@, ';'),
            i <= parts@.len(),
            forall|k: int| 0 <= k < i ==> !is_ers(#[trigger] pv[k]),
        decreases parts@.len() - i,
    {
        if is_ers_exec(&parts[i]) {
            assert(is_ers(pv[i as int]));
            return None;
        }
        i = i + 1;
    }
    let mut out = s;
    push_str(&mut out, ";.ERS");
    proof {
        reveal_strlit(";.ERS");
        reveal_strlit(".ERS");
        lemma_split_join(pathext@, ';');
        lemma_join_push(pv, ".ERS"@);
        assert(";.ERS"@ =~= seq![';'] + ".ERS"@);
    }
    Some(string_of(out.as_slice()))
}

/// `PATHEXT` without its `.ers` entries, for removing the association;
/// `None` when it holds none.
pub fn pathext_without_ers(pathext: &str) -> (r: Option<String>)
    ensures
        !has_ers(pathext@) ==> r is None,
        has_ers(pathext@) ==> (r matches Some(x) && x@ == join_entries(
            entries_without_ers(split_spec(pathext@, ';')),
        )),
{
    let s = chars_of(pathext);
    let parts = split_exec(&s, ';');
    let ghost pv = parts@.map_values(|v: Vec<char>| v@);
    let mut kept: Vec<char> = Vec::new();
    let mut n_kept: usize = 0;
    let mut found = false;
    let mut i: usize = 0;
    assert(pv.take(0) =~= Seq::<Seq<char>>::empty());
    while i < parts.len()
        invariant
            pv == parts@.map_values(|v: Vec<char>| v@),
            pv == split_spec(pathext@, ';'),
            i <= parts@.len(),
            found == exists|k: int| 0 <= k < i && is_ers(#[trigger] pv[k]),
            kept@ == join_entries(entries_without_ers(pv.take(i as int))),
            n_kept == entries_without_ers(pv.take(i as int)).len(),
            n_kept <= i,
        decreases parts@.len() - i,
    {
        let ghost before = entries_without_ers(pv.take(i as int));
        assert(pv.take(i + 1).drop_last() =~= pv.take(i as int));
        assert(pv.take(i + 1).last() == pv[i as int]);
        if is_ers_exec(&parts[i]) {
            found = true;
            assert(entries_without_ers(pv.take(i + 1)) == before);
        } else {
            assert(entries_without_ers(pv.take(i + 1)) == before.push(pv[i as int]));
            if n_kept > 0 {
                kept.push(';');
            }
            push_range(&mut kept, &parts[i], 0, parts[i].len());
            assert(parts@[i as int]@.subrange(0, parts@[i as int]@.len() as int) =~= pv[i as int]);
            proof {
                let after = before.push(pv[i as int]);
                assert(after.drop_last() =~= before);
                if before.len() == 0 {
                    assert(join_entries(after) == after[0]);
                }
            }
            n_kept = n_kept + 1;
        }
        i = i + 1;
    }
    assert(pv.take(i as int) =~= pv);
    if found {
        Some(string_of(kept.as_slice()))
    } else {
        None
    }
}

/// Joining the pieces split at `c` (here `;`) gives the text back.
pub proof fn lemma_split_join(s: Seq<char>, c: char)
    requires
        c == ';',
    ensures
        join_entries(split_spec(s, c)) == s,
        split_spec(s, c).len() >= 1,
    decreases s.len(),
{
    let j = find_char(s, c, 0);
    lemma_find_char(s, c, 0);
    if j < s.len() {
        let rest = s.skip(j + 1);
        lemma_split_join(rest, c);
        let pr = split_spec(rest, c);
        let all = seq![s.take(j)] + pr;
        lemma_join_front(s.take(j), pr);
        assert(s =~= s.take(j) + seq![';'] + rest);
    }
}

/// Joining with an entry in front puts it and a `;` in front.
pub proof fn lemma_join_front(e: Seq<char>, es: Seq<Seq<char>>)
    requires
        es.len() >= 1,
    ensures
        join_entries(seq![e] + es) == e + seq![';'] + join_entries(es),
    decreases es.len(),
{
    let all = seq![e] + es;
    if es.len() == 1 {
        assert(all.drop_last() =~= seq![e]);
        assert(join_entries(seq![e]) == e);
        assert(all.last() == es[0]);
        assert(join_entries(es) == es[0]);
    } else {
        lemma_join_front(e, es.drop_last());
        assert(all.drop_last() =~= seq![e] + es.drop_last());
        assert(all.last() == es.last());
        assert(join_entries(es) == join_entries(es.drop_last()) + seq![';'] + es.last());
        assert(join_entries(all) == join_entries(all.drop_last()) + seq![';'] + all.last());
        assert(e + seq![';'] + join_entries(es.drop_last()) + seq![';'] + es.last() =~= e + seq![
            ';',
        ] + (join_entries(es.drop_last()) + seq![';'] + es.last()));
    }
}

/// Joining with an entry at the end puts a `;` and it at the end.
pub proof fn lemma_join_push(es: Seq<Seq<char>>, e: Seq<char>)
    requires
        es.len() >= 1,
    ensures
        join_entries(es.push(e)) == join_entries(es) + seq![';'] + e,
{
    assert(es.push(e).drop_last() =~= es);
}

/// Removing `.ers` from a `PATHEXT` that it was added to gives the list as
/// it was before: uninstalling the association undoes what installing it
/// did to `PATHEXT`.
pub proof fn law_pathext_round_trip(pathext: Seq<char>)
    requires
        !has_ers(pathext),
    ensures
        has_ers(join_entries(split_spec(pathext, ';').push(".ERS"@))),
        join_entries(
            entries_without_ers(split_spec(join_entries(split_spec(pathext, ';').push(".ERS"@)), ';')),
        ) == pathext,
{
    let ers = ".ERS"@;
    let parts = split_spec(pathext, ';');
    let added = parts.push(ers);
    let joined = join_entries(added);
    assert(split_spec(joined, ';') == added) by {
        lemma_split_join(pathext, ';');
        lemma_join_push(parts, ers);
        lemma_ers_text();
        lemma_split_append(pathext, ers);
    }
    assert(is_ers(ers)) by {
        lemma_ers_text();
    }
    assert(added[parts.len() as int] == ers);
    assert(entries_without_ers(added) == parts) by {
        assert(added.drop_last() =~= parts);
        assert(added.last() == ers);
        assert forall|i: int| 0 <= i < parts.len() implies !is_ers(#[trigger] parts[i]) by {}
        lemma_filter_all_kept(parts);
    }
    lemma_split_join(pathext, ';');
}

proof fn lemma_ers_text()
    ensures
        ".ERS"@ == seq!['.', 'E', 'R', 'S'],
        ".ers"@ == seq!['.', 'e', 'r', 's'],
        forall|k: int| 0 <= k < ".ERS"@.len() ==> ".ERS"@[k] != ';',
        split_spec(".ERS"@, ';') == seq![".ERS"@],
        is_ers(".ERS"@),
{
    reveal_strlit(".ERS");
    reveal_strlit(".ers");
    lemma_find_char(".ERS"@, ';', 0);
    assert(find_char(".ERS"@, ';', 0) == 4);
    assert(fold_ascii('E') == 'e');
    assert(fold_ascii('R') == 'r');
    assert(fold_ascii('S') == 's');
    assert(fold_ascii('.') == '.');
}

/// Splitting text with a `;` and an entry without `;` after it gives the
/// pieces of the text and then that entry.
pub proof fn lemma_split_append(s: Seq<char>, t: Seq<char>)
    requires
        forall|k: int| 0 <= k < t.len() ==> t[k] != ';',
    ensures
        split_spec(s + seq![';'] + t, ';') == split_spec(s, ';').push(t),
    decreases s.len(),
{
    let u = s + seq![';'] + t;
    let j = find_char(s, ';', 0);
    lemma_find_char(s, ';', 0);
    lemma_find_char(u, ';', 0);
    if j < s.len() {
        assert(u[j] == ';');
        assert forall|k: int| 0 <= k < j implies u[k] != ';' by {
            assert(u[k] == s[k]);
        }
        assert(find_char(u, ';', 0) == j);
        let rest = s.skip(j + 1);
        lemma_split_append(rest, t);
        assert(u.skip(j + 1) =~= rest + seq![';'] + t);
        assert(u.take(j) =~= s.take(j));
        assert(split_spec(u, ';') == seq![u.take(j)] + split_spec(u.skip(j + 1), ';'));
        assert(split_spec(s, ';') == seq![s.take(j)] + split_spec(rest, ';'));
        assert(seq![s.take(j)] + split_spec(rest, ';').push(t) =~= (seq![s.take(j)] + split_spec(
            rest,
            ';',
        )).push(t));
    } else {
        assert(u[s.len() as int] == ';');
        assert forall|k: int| 0 <= k < s.len() implies u[k] != ';' by {
            assert(u[k] == s[k]);
        }
        assert(find_char(u, ';', 0) == s.len());
        assert(u.take(s.len() as int) =~= s);
        assert(u.skip(s.len() as int + 1) =~= t);
        lemma_find_char(t, ';', 0);
        assert(find_char(t, ';', 0) == t.len());
        assert(split_spec(t, ';') == seq![t]);
        assert(split_spec(s, ';') == seq![s]);
        assert(split_spec(u, ';') == seq![u.take(s.len() as int)] + split_spec(
            u.skip(s.len() as int + 1),
            ';',
        ));
        assert(split_spec(u, ';') =~= seq![s, t]);
        assert(seq![s].push(t) =~= seq![s, t]);
    }
}

/// Entries none of which is `.ers` are all kept.
proof fn lemma_filter_all_kept(es: Seq<Seq<char>>)
    requires
        forall|i: int| 0 <= i < es.len() ==> !is_ers(#[trigger] es[i]),
    ensures
        entries_without_ers(es) == es,
    decreases es.len(),
{
    if es.len() > 0 {
        let init = es.drop_last();
        assert forall|i: int| 0 <= i < init.len() implies !is_ers(#[trigger] init[i]) by {
            assert(init[i] == es[i]);
        }
        lemma_filter_all_kept(init);
        assert(es =~= init.push(es.last()));
        assert(!is_ers(es[es.len() - 1]));
    }
}

/// The path the handler runs: without the `\\?\` prefix of a verbatim path,
/// which the shell does not take.
pub fn handler_path(path: &str) -> (r: &str)
    ensures
        r@ == if path@.len() >= 4 && path@.take(4) == "\\\\?\\"@ {
            path@.skip(4)
        } else {
            path@
        },
{
    let n = path.unicode_len();
    proof {
        reveal_strlit("\\\\?\\");
    }
    if n >= 4 && path.get_char(0) == '\\' && path.get_char(1) == '\\' && path.get_char(2) == '?'
        && path.get_char(3) == '\\' {
        assert(path@.take(4) =~= "\\\\?\\"@);
        path.substring_char(4, n)
    } else {
        proof {
            if path@.len() >= 4 && path@.take(4) == "\\\\?\\"@ {
                assert(path@[0] == path@.take(4)[0]);
                assert(path@[1] == path@.take(4)[1]);
                assert(path@[2] == path@.take(4)[2]);
                assert(path@[3] == path@.take(4)[3]);
            }
        }
        path
    }
}

/// The command the registry runs for an `.ers` file: the handler, quoted,
/// then the file and the rest of the arguments.
pub fn open_command(handler: &str) -> (r: String)
    ensures
        r@ == "\""@ + handler@ + "\" \"%1\" %*"@,
{
    let mut v: Vec<char> = Vec::new();
    push_str(&mut v, "\"");
    push_str(&mut v, handler);
    push_str(&mut v, "\" \"%1\" %*");
    string_of(v.as_slice())
}

} // verus!
