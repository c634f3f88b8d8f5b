//! Sets of message values: copying, uniting, and choosing what to gossip.

use std::collections::HashSet;
use vstd::prelude::*;
use vstd::set_lib::lemma_len_subset;
use vstd::std_specs::hash::spec_hash_keys_iter;
use vstd::std_specs::iter::IteratorSpec;

verus! {

broadcast use vstd::std_specs::hash::group_hash_axioms;

/// The largest number of values that a gossip message repeats although the
/// receiver is believed to know them.
pub const REPEATED_VALUES: usize = 10;

/// Whether `x` is among the first `n` values of the walk `walk`.
pub open spec fn walked(walk: Seq<&usize>, n: int, x: usize) -> bool {
    exists|j: int| 0 <= j < n && *#[trigger] walk[j] == x
}

/// A walk through a set meets just the values of the set.
pub proof fn lemma_walk_covers(walk: Seq<&usize>, set: Set<usize>)
    requires
        walk.unref().to_set() == set,
    ensures
        forall|x: usize| set.contains(x) <==> walked(walk, walk.len() as int, x),
{
    assert forall|x: usize| set.contains(x) <==> walked(walk, walk.len() as int, x) by {
        if set.contains(x) {
            assert(walk.unref().contains(x));
            let j = choose|j: int| 0 <= j < walk.unref().len() && walk.unref()[j] == x;
            assert(*walk[j] == x);
        }
        if walked(walk, walk.len() as int, x) {
            let j = choose|j: int| 0 <= j < walk.len() && *#[trigger] walk[j] == x;
            assert(walk.unref()[j] == x);
            assert(walk.unref().contains(x));
        }
    }
}

/// One more step of a walk meets one more value.
pub proof fn lemma_walk_on(walk: Seq<&usize>, n: int)
    requires
        0 <= n < walk.len(),
    ensures
        forall|x: usize| walked(walk, n + 1, x) <==> walked(walk, n, x) || x == *walk[n],
{
    assert forall|x: usize| walked(walk, n + 1, x) <==> walked(walk, n, x) || x == *walk[n] by {
        if walked(walk, n + 1, x) {
            let j = choose|j: int| 0 <= j < n + 1 && *#[trigger] walk[j] == x;
            if j < n {
                assert(walked(walk, n, x));
            }
        }
        if walked(walk, n, x) {
            let j = choose|j: int| 0 <= j < n && *#[trigger] walk[j] == x;
            assert(0 <= j < n + 1 && *walk[j] == x);
        }
        if x == *walk[n] {
            assert(0 <= n < n + 1 && *walk[n] == x);
        }
    }
}

/// The set that a hash set holds is finite.
pub proof fn lemma_finite(set: &HashSet<usize>)
    ensures
        set@.finite(),
{
    let walk = spec_hash_keys_iter(set).remaining();
    assert(walk.unref().to_set() == set@);
    vstd::seq_lib::seq_to_set_is_finite(walk.unref());
}

/// Adds the values of `source` to `target`.
pub fn union_into(target: &mut HashSet<usize>, source: &HashSet<usize>)
    ensures
        final(target)@ == old(target)@.union(source@),
{
    let ghost before = target@;
    proof {
        lemma_walk_covers(spec_hash_keys_iter(source).remaining(), source@);
    }
    for v in it: source.iter()
        invariant
            forall|x: usize| source@.contains(x) <==> walked(it.seq(), it.seq().len() as int, x),
            forall|x: usize|
                target@.contains(x) <==> before.contains(x) || walked(it.seq(), it.index(), x),
    {
        proof {
            lemma_walk_on(it.seq(), it.index());
        }
        target.insert(*v);
    }
    assert(target@ =~= before.union(source@));
}

/// A set with the values of `source`.
pub fn copy_of(source: &HashSet<usize>) -> (copy: HashSet<usize>)
    ensures
        copy@ == source@,
{
    let mut copy: HashSet<usize> = HashSet::new();
    union_into(&mut copy, source);
    assert(copy@ =~= source@);
    copy
}

/// Whether `payload` is what a node that has seen `seen` may gossip to a
/// neighbor whom it believes to know `known`: all that it has seen and the
/// neighbor is not known to know, and of the rest as many values as the
/// limit allows.
pub open spec fn gossip_for(seen: Set<usize>, known: Set<usize>, payload: Set<usize>) -> bool {
    &&& payload.subset_of(seen)
    &&& seen.difference(known).subset_of(payload)
    &&& payload.intersect(known).len() == if seen.intersect(known).len() < REPEATED_VALUES {
        seen.intersect(known).len()
    } else {
        REPEATED_VALUES as nat
    }
}

/// Chooses what to gossip to a neighbor who is believed to know `known`.
pub fn notify(seen: &HashSet<usize>, known: &HashSet<usize>) -> (payload: HashSet<usize>)
    ensures
        gossip_for(seen@, known@, payload@),
{
    let mut payload: HashSet<usize> = HashSet::new();
    let mut repeated: usize = 0;
    proof {
        lemma_walk_covers(spec_hash_keys_iter(seen).remaining(), seen@);
        lemma_finite(known);
        assert(payload@.intersect(known@) =~= Set::<usize>::empty());
    }
    for v in it: seen.iter()
        invariant
            it.seq().no_duplicates(),
            known@.finite(),
            payload@.finite(),
            forall|x: usize| seen@.contains(x) <==> walked(it.seq(), it.seq().len() as int, x),
            forall|x: usize| payload@.contains(x) ==> walked(it.seq(), it.index(), x),
            forall|x: usize|
                walked(it.seq(), it.index(), x) && !known@.contains(x) ==> payload@.contains(x),
            repeated < REPEATED_VALUES ==> forall|x: usize|
                walked(it.seq(), it.index(), x) ==> payload@.contains(x),
            repeated <= REPEATED_VALUES,
            repeated == payload@.intersect(known@).len(),
    {
        let ghost before = payload@;
        proof {
            lemma_walk_on(it.seq(), it.index());
            if before.contains(*v) {
                let j = choose|j: int| 0 <= j < it.index() && *#[trigger] it.seq()[j] == *v;
                assert(it.seq()[j] == it.seq()[it.index()]);
            }
        }
        if !known.contains(v) {
            payload.insert(*v);
            assert(payload@.intersect(known@) =~= before.intersect(known@));
        } else if repeated < REPEATED_VALUES {
            payload.insert(*v);
            repeated += 1;
            assert(payload@.intersect(known@) =~= before.intersect(known@).insert(*v));
        }
    }
    proof {
        lemma_finite(seen);
        if repeated < REPEATED_VALUES {
            assert(payload@ =~= seen@);
        } else {
            lemma_len_subset(payload@.intersect(known@), seen@.intersect(known@));
        }
    }
    payload
}

} // verus!
