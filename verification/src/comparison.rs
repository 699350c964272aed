//! Checking a computed relation against the set of tuples it should hold.
use vstd::prelude::*;
use crate::value::Atom;
use crate::tuple_set::{strictly_increasing, Tuple, TupleSet};
use crate::relation::Relation;

verus! {

/// How the tuples of a relation compare with an expected set of tuples.
pub struct Comparison {
    /// Whether the two sets are equal.
    pub matches: bool,
    /// The expected tuples that the relation lacks, in increasing order.
    pub missing: Vec<Tuple>,
    /// The tuples of the relation that were not expected, in increasing order.
    pub extra: Vec<Tuple>,
}

/// A sequence is empty exactly when the set of its elements is.
proof fn lemma_empty_to_set(s: Seq<Seq<Atom>>)
    ensures
        (s.len() == 0) == (s.to_set() == Set::<Seq<Atom>>::empty()),
{
    if s.len() == 0 {
        assert(s.to_set() =~= Set::<Seq<Atom>>::empty());
    } else {
        assert(s.to_set().contains(s[0]));
    }
}

/// Compares the tuples of `actual` with `expected`.
pub fn verify(actual: &Relation, expected: &TupleSet) -> (c: Comparison)
    ensures
        c.matches == (actual.body() == expected@),
        c.missing.deep_view().to_set() == expected@.difference(actual.body()),
        strictly_increasing(c.missing.deep_view()),
        c.extra.deep_view().to_set() == actual.body().difference(expected@),
        strictly_increasing(c.extra.deep_view()),
{
    let tuples = actual.tuples();
    let missing = expected.difference(tuples);
    let extra = tuples.difference(expected);
    let matches = missing.len() == 0 && extra.len() == 0;
    proof {
        lemma_empty_to_set(missing.deep_view());
        lemma_empty_to_set(extra.deep_view());
        let a = actual.body();
        let e = expected@;
        if a == e {
            assert(e.difference(a) =~= Set::<Seq<Atom>>::empty());
            assert(a.difference(e) =~= Set::<Seq<Atom>>::empty());
        }
        if e.difference(a) == Set::<Seq<Atom>>::empty() && a.difference(e) == Set::<Seq<Atom>>::empty() {
            assert forall|t: Seq<Atom>| a.contains(t) == e.contains(t) by {
                if a.contains(t) && !e.contains(t) {
                    assert(a.difference(e).contains(t));
                }
                if e.contains(t) && !a.contains(t) {
                    assert(e.difference(a).contains(t));
                }
            }
            assert(a =~= e);
        }
    }
    Comparison { matches, missing, extra }
}

} // verus!
