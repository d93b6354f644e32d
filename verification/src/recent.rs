//! The list of recently opened projects: most recent first, without
//! repetitions, at most `MAX_RECENT` entries.
use vstd::prelude::*;
use crate::text::str_eq;

verus! {

/// How many recent projects are remembered.
pub const MAX_RECENT: usize = 20;

/// The characters of each string.
pub open spec fn views(v: Seq<String>) -> Seq<Seq<char>> {
    v.map_values(|s: String| s@)
}

/// `list` without the entries equal to `p`, the others in order.
pub open spec fn without(list: Seq<Seq<char>>, p: Seq<char>) -> Seq<Seq<char>>
    decreases list.len(),
{
    if list.len() == 0 {
        list
    } else if list.last() == p {
        without(list.drop_last(), p)
    } else {
        without(list.drop_last(), p).push(list.last())
    }
}

/// `s` cut to its first `n` entries when it is longer (what
/// `Vec::truncate` does).
pub open spec fn truncated(s: Seq<Seq<char>>, n: nat) -> Seq<Seq<char>> {
    if s.len() > n {
        s.take(n as int)
    } else {
        s
    }
}

/// The recent list after opening `p`: `p` first, then the earlier entries
/// other than `p`, cut to `MAX_RECENT` entries.
pub open spec fn recent_after_open(list: Seq<Seq<char>>, p: Seq<char>) -> Seq<Seq<char>> {
    truncated(seq![p] + without(list, p), MAX_RECENT as nat)
}

/// Removes from `recent` every entry equal to `path`.
pub fn remove_recent(recent: &Vec<String>, path: &str) -> (r: Vec<String>)
    ensures
        views(r@) == without(views(recent@), path@),
{
    let mut out: Vec<String> = Vec::new();
    let mut i: usize = 0;
    while i < recent.len()
        invariant
            i <= recent.len(),
            views(out@) == without(views(recent@.take(i as int)), path@),
        decreases recent.len() - i,
    {
        assert(views(recent@.take(i + 1)).drop_last() =~= views(recent@.take(i as int)));
        assert(views(recent@.take(i + 1)).last() == recent@[i as int]@);
        if !str_eq(recent[i].as_str(), path) {
            out.push(recent[i].clone());
            assert(views(out@) =~= without(views(recent@.take(i as int)), path@).push(recent@[i as int]@));
        }
        i = i + 1;
    }
    assert(recent@.take(recent@.len() as int) =~= recent@);
    out
}

/// The recent list after opening `path`.
pub fn update_recent(recent: &Vec<String>, path: &str) -> (r: Vec<String>)
    ensures
        views(r@) == recent_after_open(views(recent@), path@),
{
    let rest = remove_recent(recent, path);
    let mut out: Vec<String> = Vec::new();
    out.push(String::from_str(path));
    let mut i: usize = 0;
    while i < rest.len()
        invariant
            i <= rest.len(),
            views(out@) == seq![path@] + views(rest@.take(i as int)),
        decreases rest.len() - i,
    {
        let item = rest[i].clone();
        assert(item@ == rest@[i as int]@);
        assert(rest@.take(i + 1) =~= rest@.take(i as int).push(rest@[i as int]));
        let ghost before = out@;
        out.push(item);
        assert(out@ =~= before.push(item));
        assert(views(out@) =~= views(before).push(item@));
        assert(views(rest@.take(i + 1)) =~= views(rest@.take(i as int)).push(rest@[i as int]@));
        i = i + 1;
        assert(views(out@) =~= seq![path@] + views(rest@.take(i as int)));
    }
    assert(rest@.take(rest@.len() as int) =~= rest@);
    out.truncate(MAX_RECENT);
    assert(views(out@) =~= recent_after_open(views(recent@), path@));
    out
}

/// Whether the stored last project is `path` (and must be cleared when
/// `path` is removed).
pub fn is_last_project(last: &Option<String>, path: &str) -> (r: bool)
    ensures
        r == (last matches Some(l) && l@ == path@),
{
    match last {
        Some(l) => str_eq(l.as_str(), path),
        None => false,
    }
}

// ---------------------------------------------------------------------------
// Laws
// ---------------------------------------------------------------------------

/// Removing `p` leaves no entry equal to `p`, keeps every other entry, and
/// never lengthens the list.
pub proof fn lemma_without(list: Seq<Seq<char>>, p: Seq<char>)
    ensures
        forall|i: int| 0 <= i < without(list, p).len() ==> without(list, p)[i] != p,
        forall|q: Seq<char>|
            #![trigger list.contains(q)]
            #![trigger without(list, p).contains(q)]
            q != p ==> (list.contains(q) <==> without(list, p).contains(q)),
        without(list, p).len() <= list.len(),
    decreases list.len(),
{
    if list.len() > 0 {
        let l = list.drop_last();
        lemma_without(l, p);
        assert forall|q: Seq<char>| q != p implies (list.contains(q) <==> without(list, p).contains(q)) by {
            if list.contains(q) {
                let k = choose|k: int| 0 <= k < list.len() && list[k] == q;
                if k < l.len() {
                    assert(l[k] == q);
                    assert(l.contains(q));
                    let m = choose|m: int| 0 <= m < without(l, p).len() && without(l, p)[m] == q;
                    if list.last() != p {
                        assert(without(list, p)[m] == q);
                    }
                } else {
                    assert(list.last() == q);
                    assert(without(list, p).last() == q);
                }
            }
            if without(list, p).contains(q) {
                let m = choose|m: int| 0 <= m < without(list, p).len() && without(list, p)[m] == q;
                if list.last() != p && m == without(list, p).len() - 1 {
                    assert(list[list.len() - 1] == q);
                } else {
                    assert(without(l, p)[m] == q);
                    assert(without(l, p).contains(q));
                    let k = choose|k: int| 0 <= k < l.len() && l[k] == q;
                    assert(list[k] == q);
                }
            }
        }
    }
}

/// After `p` is opened it is the most recent project, it appears exactly
/// once, and the list holds at most `MAX_RECENT` entries.
pub proof fn lemma_open_puts_first(list: Seq<Seq<char>>, p: Seq<char>)
    ensures
        recent_after_open(list, p).len() >= 1,
        recent_after_open(list, p)[0] == p,
        forall|i: int| 1 <= i < recent_after_open(list, p).len() ==> recent_after_open(list, p)[i] != p,
        recent_after_open(list, p).len() <= MAX_RECENT,
{
    lemma_without(list, p);
    let r = recent_after_open(list, p);
    let full = seq![p] + without(list, p);
    assert forall|i: int| 1 <= i < r.len() implies r[i] != p by {
        assert(r[i] == full[i]);
        assert(full[i] == without(list, p)[i - 1]);
    }
}

/// Opening the same project twice in a row is the same as opening it once.
pub proof fn lemma_open_idempotent(list: Seq<Seq<char>>, p: Seq<char>)
    ensures
        recent_after_open(recent_after_open(list, p), p) == recent_after_open(list, p),
{
    let r = recent_after_open(list, p);
    lemma_open_puts_first(list, p);
    lemma_without_keeps_distinct(r.subrange(1, r.len() as int), p);
    lemma_without_leading(r, p);
    assert(without(r, p) =~= r.subrange(1, r.len() as int));
    assert(seq![p] + without(r, p) =~= r);
}

/// A list in which `p` does not occur is unchanged by removing `p`.
pub proof fn lemma_without_keeps_distinct(list: Seq<Seq<char>>, p: Seq<char>)
    requires
        forall|i: int| 0 <= i < list.len() ==> list[i] != p,
    ensures
        without(list, p) == list,
    decreases list.len(),
{
    if list.len() > 0 {
        lemma_without_keeps_distinct(list.drop_last(), p);
        assert(list.drop_last().push(list.last()) =~= list);
    }
}

/// Removing `p` from a list that begins with `p` removes that first entry too.
proof fn lemma_without_leading(list: Seq<Seq<char>>, p: Seq<char>)
    requires
        list.len() >= 1,
        list[0] == p,
    ensures
        without(list, p) == without(list.subrange(1, list.len() as int), p),
    decreases list.len(),
{
    if list.len() > 1 {
        let l = list.drop_last();
        lemma_without_leading(l, p);
        assert(list.subrange(1, list.len() as int).drop_last() =~= l.subrange(1, l.len() as int));
        assert(list.subrange(1, list.len() as int).last() == list.last());
    } else {
        assert(list.subrange(1, list.len() as int) =~= Seq::<Seq<char>>::empty());
        assert(list.drop_last() =~= Seq::<Seq<char>>::empty());
    }
}

/// Removing a project from the list leaves no entry for it.
pub proof fn lemma_remove_forgets(list: Seq<Seq<char>>, p: Seq<char>)
    ensures
        !without(list, p).contains(p),
{
    lemma_without(list, p);
}

} // verus!
