//! Sets of locals, and maps keyed by locals.
use std::collections::{HashMap, HashSet};
use vstd::prelude::*;

verus! {

broadcast use vstd::std_specs::hash::group_hash_axioms;

/// The elements of a hash set are finitely many.
pub proof fn lemma_finite(s: &HashSet<u32>)
    ensures
        s@.finite(),
{
    let listing = vstd::std_specs::hash::spec_hash_keys_iter(s);
    vstd::std_specs::hash::axiom_spec_hash_keys_iter(s);
    vstd::seq_lib::seq_to_set_is_finite(
        vstd::std_specs::iter::IteratorSpec::remaining(&listing).unref(),
    );
}

/// Takes the elements of `gone` out of a set; tells whether any was there.
pub fn remove_ids(from: &mut HashSet<u32>, gone: &HashSet<u32>) -> (changed: bool)
    ensures
        final(from)@ == old(from)@.difference(gone@),
        changed == !old(from)@.disjoint(gone@),
{
    let ghost before = from@;
    let ghost mut done: Seq<u32> = Seq::empty();
    let mut changed = false;
    for id in it: gone.iter()
        invariant
            it.seq().unref().to_set() == gone@,
            done == it.seq().unref().take(it.index()),
            it.index() == it.seq().len() ==> done.to_set() == gone@,
            from@ == before.difference(done.to_set()),
            changed == !before.disjoint(done.to_set()),
    {
        if from.remove(id) {
            changed = true;
        }
        proof {
            lemma_push_set(done, *id);
            assert(before.disjoint(done.push(*id).to_set()) == (before.disjoint(done.to_set())
                && !before.contains(*id)));
            done = done.push(*id);
            assert(done =~= it.seq().unref().take(it.index() + 1));
            assert(it.index() + 1 == it.seq().len() ==> done =~= it.seq().unref());
        }
    }
    changed
}

/// Takes the keys in `gone` out of a map.
pub fn remove_keys<V>(from: &mut HashMap<u32, V>, gone: &HashSet<u32>)
    ensures
        final(from)@ == old(from)@.remove_keys(gone@),
{
    let ghost before = from@;
    let ghost mut done: Seq<u32> = Seq::empty();
    assert(from@ =~= before.remove_keys(done.to_set()));
    for id in it: gone.iter()
        invariant
            it.seq().unref().to_set() == gone@,
            done == it.seq().unref().take(it.index()),
            it.index() == it.seq().len() ==> done.to_set() == gone@,
            from@ == before.remove_keys(done.to_set()),
    {
        from.remove(id);
        proof {
            lemma_push_set(done, *id);
            done = done.push(*id);
            assert(from@ =~= before.remove_keys(done.to_set()));
            assert(done =~= it.seq().unref().take(it.index() + 1));
            assert(it.index() + 1 == it.seq().len() ==> done =~= it.seq().unref());
        }
    }
}

/// Adds the keys of a map to a set.
pub fn insert_keys<V>(of: &HashMap<u32, V>, out: &mut HashSet<u32>)
    ensures
        final(out)@ == old(out)@.union(of@.dom()),
{
    let ghost before = out@;
    let ghost mut done: Seq<u32> = Seq::empty();
    for id in it: of.keys()
        invariant
            it.seq().unref().to_set() == of@.dom(),
            done == it.seq().unref().take(it.index()),
            it.index() == it.seq().len() ==> done.to_set() == of@.dom(),
            out@ == before.union(done.to_set()),
    {
        out.insert(*id);
        proof {
            lemma_push_set(done, *id);
            done = done.push(*id);
            assert(out@ =~= before.union(done.to_set()));
            assert(done =~= it.seq().unref().take(it.index() + 1));
            assert(it.index() + 1 == it.seq().len() ==> done =~= it.seq().unref());
        }
    }
}

/// Adds to a set those elements of `ids` that are keys of a map.
pub fn insert_common<V>(ids: &HashSet<u32>, of: &HashMap<u32, V>, out: &mut HashSet<u32>)
    ensures
        final(out)@ == old(out)@.union(ids@.intersect(of@.dom())),
{
    let ghost before = out@;
    let ghost mut done: Seq<u32> = Seq::empty();
    for id in it: ids.iter()
        invariant
            it.seq().unref().to_set() == ids@,
            done == it.seq().unref().take(it.index()),
            it.index() == it.seq().len() ==> done.to_set() == ids@,
            out@ == before.union(done.to_set().intersect(of@.dom())),
    {
        if of.contains_key(id) {
            out.insert(*id);
        }
        proof {
            lemma_push_set(done, *id);
            done = done.push(*id);
            assert(out@ =~= before.union(done.to_set().intersect(of@.dom())));
            assert(done =~= it.seq().unref().take(it.index() + 1));
            assert(it.index() + 1 == it.seq().len() ==> done =~= it.seq().unref());
        }
    }
}

/// The elements of a list with one more at its end.
pub proof fn lemma_push_set(s: Seq<u32>, x: u32)
    ensures
        s.push(x).to_set() == s.to_set().insert(x),
{
    let a = s.push(x).to_set();
    let b = s.to_set().insert(x);
    assert forall|y: u32| a.contains(y) == b.contains(y) by {
        if s.contains(y) {
            let j = choose|j: int| 0 <= j < s.len() && s[j] == y;
            assert(s.push(x)[j] == y);
        }
        if y == x {
            assert(s.push(x)[s.len() as int] == x);
        }
        if s.push(x).contains(y) && y != x {
            let j = choose|j: int| 0 <= j < s.push(x).len() && s.push(x)[j] == y;
            assert(s[j] == y);
        }
    }
    assert(a =~= b);
}

} // verus!
