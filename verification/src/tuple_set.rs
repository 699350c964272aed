//! A finite set of tuples, kept in increasing order of [`tuple_lt`]: no
//! tuple occurs twice, and the tuples are always listed in that order.
use vstd::prelude::*;
use crate::value::{Atom, Value};
use crate::order::{compare_tuples, lemma_tuple_order, tuple_less, tuple_lt, tuples_equal, Order};

verus! {

/// A tuple is an ordered sequence of values.
pub type Tuple = Vec<Value>;

/// Every tuple of `s` comes before every later one.
pub open spec fn strictly_increasing(s: Seq<Seq<Atom>>) -> bool {
    forall|i: int, j: int| 0 <= i < j < s.len() ==> tuple_lt(#[trigger] s[i], #[trigger] s[j])
}

/// Inserting `x` into a sequence adds `x` to the set of its elements.
proof fn lemma_insert_to_set<A>(s: Seq<A>, i: int, x: A)
    requires
        0 <= i <= s.len(),
    ensures
        s.insert(i, x).to_set() == s.to_set().insert(x),
{
    s.insert_ensures(i, x);
    let n = s.insert(i, x);
    assert forall|y: A| n.contains(y) implies s.to_set().insert(x).contains(y) by {
        let k = choose|k: int| 0 <= k < n.len() && n[k] == y;
        if k < i {
            assert(s[k] == y);
        } else if k > i {
            assert(s[k - 1] == y);
        }
    }
    assert forall|y: A| s.to_set().insert(x).contains(y) implies n.contains(y) by {
        if y == x {
            assert(n[i] == x);
        } else {
            let k = choose|k: int| 0 <= k < s.len() && s[k] == y;
            if k < i {
                assert(n[k] == y);
            } else {
                assert(n[k + 1] == y);
            }
        }
    }
    assert(n.to_set() =~= s.to_set().insert(x));
}

/// A strictly increasing sequence holds no element twice.
pub proof fn lemma_increasing_no_duplicates(s: Seq<Seq<Atom>>)
    requires
        strictly_increasing(s),
    ensures
        s.no_duplicates(),
        s.to_set().len() == s.len(),
{
    lemma_tuple_order();
    assert forall|i: int, j: int| 0 <= i < s.len() && 0 <= j < s.len() && i != j implies s[i] != s[j] by {
        if i < j {
            assert(tuple_lt(s[i], s[j]));
        } else {
            assert(tuple_lt(s[j], s[i]));
        }
    }
    s.unique_seq_to_set();
}

/// A set of tuples in increasing order.
pub struct TupleSet {
    rows: Vec<Tuple>,
}

impl TupleSet {
    /// The tuples of the set, in increasing order.
    pub closed spec fn items(&self) -> Seq<Seq<Atom>> {
        self.rows.deep_view()
    }

    #[verifier::type_invariant]
    closed spec fn increasing(&self) -> bool {
        strictly_increasing(self.items())
    }

    /// The empty set.
    pub fn new() -> (s: TupleSet)
        ensures
            s.items() == Seq::<Seq<Atom>>::empty(),
            s@ == Set::<Seq<Atom>>::empty(),
    {
        let s = TupleSet { rows: Vec::new() };
        assert(s.items() =~= Seq::<Seq<Atom>>::empty());
        assert(s@ =~= Set::<Seq<Atom>>::empty());
        s
    }

    /// The number of tuples.
    pub fn len(&self) -> (n: usize)
        ensures
            n == self.items().len(),
            n == self@.len(),
    {
        proof {
            use_type_invariant(self);
            lemma_increasing_no_duplicates(self.items());
        }
        self.rows.len()
    }

    /// The tuple at position `i` in increasing order.
    pub fn row(&self, i: usize) -> (t: &Tuple)
        requires
            i < self.items().len(),
        ensures
            t.deep_view() == self.items()[i as int],
    {
        &self.rows[i]
    }

    /// The tuples are listed in increasing order.
    pub fn ordered(&self)
        ensures
            strictly_increasing(self.items()),
    {
        proof {
            use_type_invariant(self);
        }
    }

    /// Whether `t` is in the set.
    pub fn contains(&self, t: &Tuple) -> (b: bool)
        ensures
            b == self@.contains(t.deep_view()),
    {
        let mut i: usize = 0;
        while i < self.rows.len()
            invariant
                i <= self.rows.len(),
                forall|k: int| 0 <= k < i ==> self.items()[k] != t.deep_view(),
            decreases self.rows.len() - i,
        {
            match compare_tuples(&self.rows[i], t) {
                Order::Equal => {
                    assert(self.items()[i as int] == t.deep_view());
                    return true;
                },
                _ => {},
            }
            i = i + 1;
        }
        false
    }

    /// Adds `t` to the set; returns whether it was absent.
    pub fn insert(&mut self, t: Tuple) -> (added: bool)
        ensures
            final(self)@ == old(self)@.insert(t.deep_view()),
            added == !old(self)@.contains(t.deep_view()),
    {
        proof {
            use_type_invariant(&*self);
            lemma_tuple_order();
        }
        let ghost tv = t.deep_view();
        let ghost old_items = self.items();
        let mut i: usize = 0;
        while i < self.rows.len() && tuple_less(&self.rows[i], &t)
            invariant
                i <= self.rows.len(),
                self.items() == old_items,
                tv == t.deep_view(),
                forall|k: int| 0 <= k < i ==> tuple_lt(old_items[k], tv),
            decreases self.rows.len() - i,
        {
            i = i + 1;
        }
        assert forall|k: int| 0 <= k < i implies old_items[k] != tv by {
            assert(tuple_lt(old_items[k], tv));
        }
        if i < self.rows.len() && tuples_equal(&self.rows[i], &t) {
            assert(old_items[i as int] == tv);
            proof {
                assert(old_items.to_set().insert(tv) =~= old_items.to_set());
            }
            return false;
        }
        proof {
            assert forall|k: int| i <= k < old_items.len() implies tuple_lt(tv, old_items[k]) by {
                assert(tuple_lt(tv, old_items[i as int]));
                if k > i {
                    assert(tuple_lt(old_items[i as int], old_items[k]));
                }
            }
            assert(!old_items.contains(tv)) by {
                if old_items.contains(tv) {
                    let k = choose|k: int| 0 <= k < old_items.len() && old_items[k] == tv;
                    if k >= i {
                        assert(tuple_lt(tv, old_items[k]));
                    }
                }
            }
            lemma_insert_to_set(old_items, i as int, tv);
            old_items.insert_ensures(i as int, tv);
        }
        let mut taken = TupleSet::new();
        std::mem::swap(self, &mut taken);
        let mut rows = taken.rows;
        rows.insert(i, t);
        proof {
            let n = old_items.insert(i as int, tv);
            assert(rows.deep_view() =~= n);
            assert forall|a: int, b: int| 0 <= a < b < n.len() implies tuple_lt(#[trigger] n[a], #[trigger] n[b]) by {
                if b < i {
                } else if b == i {
                } else if a < i {
                    assert(tuple_lt(old_items[a], tv));
                    assert(tuple_lt(tv, old_items[b - 1]));
                } else if a == i {
                } else {
                    assert(tuple_lt(old_items[a - 1], old_items[b - 1]));
                }
            }
        }
        *self = TupleSet { rows };
        true
    }

    /// The set of the tuples in `rows`.
    pub fn from_rows(rows: Vec<Tuple>) -> (s: TupleSet)
        ensures
            s@ == rows.deep_view().to_set(),
    {
        let mut s = TupleSet::new();
        let mut rows = rows;
        let ghost all = rows.deep_view();
        let mut i: usize = 0;
        let n = rows.len();
        while rows.len() > 0
            invariant
                rows.len() + i == n,
                n == all.len(),
                forall|k: int| 0 <= k < rows.len() ==> #[trigger] rows.deep_view()[k] == all[k],
                s@ == all.subrange(rows.len() as int, n as int).to_set(),
            decreases rows.len(),
        {
            let ghost before = rows@;
            let ghost before_dv = rows.deep_view();
            let t = rows.pop().unwrap();
            proof {
                let m = rows.len() as int;
                assert(t == before[m]);
                assert(before_dv[m] == all[m]);
                assert forall|k: int| 0 <= k < rows.len() implies #[trigger] rows.deep_view()[k] == all[k] by {
                    assert(rows@[k] == before[k]);
                    assert(before_dv[k] == all[k]);
                }
                assert(t.deep_view() == all[m]);
                let whole = all.subrange(m, n as int);
                let tail = all.subrange(m + 1, n as int);
                assert forall|x: Seq<Atom>| whole.contains(x) implies tail.to_set().insert(all[m]).contains(x) by {
                    let k = choose|k: int| 0 <= k < whole.len() && whole[k] == x;
                    if k > 0 {
                        assert(tail[k - 1] == x);
                    }
                }
                assert forall|x: Seq<Atom>| tail.to_set().insert(all[m]).contains(x) implies whole.contains(x) by {
                    if x == all[m] {
                        assert(whole[0] == x);
                    } else {
                        let k = choose|k: int| 0 <= k < tail.len() && tail[k] == x;
                        assert(whole[k + 1] == x);
                    }
                }
                assert(whole.to_set() =~= tail.to_set().insert(all[m]));
            }
            s.insert(t);
            i = i + 1;
        }
        assert(all.subrange(0, n as int) =~= all);
        s
    }

    /// The tuples of this set that `other` lacks, in increasing order.
    pub fn difference(&self, other: &TupleSet) -> (d: Vec<Tuple>)
        ensures
            d.deep_view().to_set() == self@.difference(other@),
            strictly_increasing(d.deep_view()),
    {
        proof {
            use_type_invariant(self);
        }
        let ghost items = self.items();
        let ghost mut src: Seq<int> = Seq::empty();
        let mut d: Vec<Tuple> = Vec::new();
        let mut i: usize = 0;
        while i < self.rows.len()
            invariant
                i <= self.rows.len(),
                items == self.items(),
                strictly_increasing(items),
                src.len() == d.deep_view().len(),
                forall|m: int| 0 <= m < src.len() ==> 0 <= #[trigger] src[m] < i && d.deep_view()[m] == items[src[m]],
                forall|m: int, n: int| 0 <= m < n < src.len() ==> #[trigger] src[m] < #[trigger] src[n],
                d.deep_view().to_set() == Set::new(|t: Seq<Atom>| exists|k: int| 0 <= k < i && t == items[k] && !other@.contains(t)),
            decreases self.rows.len() - i,
        {
            let ghost before = d.deep_view();
            let ghost before_set = before.to_set();
            let keep = !other.contains(&self.rows[i]);
            if keep {
                let c = copy_tuple(&self.rows[i]);
                let ghost prev = d@;
                assert(before.len() == prev.len());
                d.push(c);
                proof {
                    assert(d.deep_view() =~= before.push(items[i as int])) by {
                        assert forall|m: int| 0 <= m < before.len() implies #[trigger] d.deep_view()[m] == before[m] by {
                            assert(d@[m] == prev[m]);
                        }
                    }
                    before.lemma_push_to_set_commute(items[i as int]);
                    src = src.push(i as int);
                }
            }
            proof {
                assert(d.deep_view().to_set() =~= Set::new(|t: Seq<Atom>| exists|k: int| 0 <= k < i + 1 && t == items[k] && !other@.contains(t))) by {
                    let target = Set::new(|t: Seq<Atom>| exists|k: int| 0 <= k < i + 1 && t == items[k] && !other@.contains(t));
                    assert forall|t: Seq<Atom>| #[trigger] d.deep_view().to_set().contains(t) implies target.contains(t) by {
                        if keep && t == items[i as int] {
                            assert(0 <= i < i + 1 && t == items[i as int]);
                        } else {
                            assert(before_set.contains(t));
                            let k = choose|k: int| 0 <= k < i && t == items[k] && !other@.contains(t);
                            assert(0 <= k < i + 1 && t == items[k]);
                        }
                    }
                    assert forall|t: Seq<Atom>| #[trigger] target.contains(t) implies d.deep_view().to_set().contains(t) by {
                        let k = choose|k: int| 0 <= k < i + 1 && t == items[k] && !other@.contains(t);
                        if k < i {
                            assert(before_set.contains(t));
                        }
                    }
                }
            }
            i = i + 1;
        }
        proof {
            let target = Set::new(|t: Seq<Atom>| exists|k: int| 0 <= k < i && t == items[k] && !other@.contains(t));
            assert forall|t: Seq<Atom>| #[trigger] target.contains(t) implies self@.difference(other@).contains(t) by {
                let k = choose|k: int| 0 <= k < i && t == items[k] && !other@.contains(t);
                assert(items.to_set().contains(items[k]));
            }
            assert forall|t: Seq<Atom>| #[trigger] self@.difference(other@).contains(t) implies target.contains(t) by {
                let k = choose|k: int| 0 <= k < items.len() && items[k] == t;
                assert(0 <= k < i && t == items[k] && !other@.contains(t));
            }
            assert(target =~= self@.difference(other@));
            assert forall|m: int, n: int| 0 <= m < n < d.deep_view().len() implies
                tuple_lt(#[trigger] d.deep_view()[m], #[trigger] d.deep_view()[n]) by {
                assert(src[m] < src[n]);
                assert(tuple_lt(items[src[m]], items[src[n]]));
            }
        }
        d
    }

    /// A copy of the tuples, in increasing order.
    pub fn rows(&self) -> (v: Vec<Tuple>)
        ensures
            v.deep_view() == self.items(),
    {
        let mut v: Vec<Tuple> = Vec::new();
        let mut i: usize = 0;
        while i < self.rows.len()
            invariant
                i <= self.rows.len(),
                v.deep_view() == self.items().take(i as int),
            decreases self.rows.len() - i,
        {
            let t = copy_tuple(&self.rows[i]);
            let ghost prev = v@;
            let ghost prev_dv = v.deep_view();
            assert(prev_dv.len() == i);
            v.push(t);
            assert forall|k: int| 0 <= k < i + 1 implies #[trigger] v.deep_view()[k] == self.items()[k] by {
                if k < i {
                    assert(v@[k] == prev[k]);
                    assert(prev_dv[k] == self.items()[k]);
                }
            }
            assert(v.deep_view() =~= self.items().take(i + 1));
            i = i + 1;
        }
        assert(self.items().take(i as int) =~= self.items());
        v
    }
}

impl View for TupleSet {
    type V = Set<Seq<Atom>>;

    open spec fn view(&self) -> Set<Seq<Atom>> {
        self.items().to_set()
    }
}

/// A copy of the tuple `t`.
pub fn copy_tuple(t: &Tuple) -> (c: Tuple)
    ensures
        c.deep_view() == t.deep_view(),
{
    let mut c: Tuple = Vec::new();
    let mut i: usize = 0;
    while i < t.len()
        invariant
            i <= t.len(),
            c.deep_view() == t.deep_view().take(i as int),
        decreases t.len() - i,
    {
        let ghost prev = c@;
        let ghost prev_dv = c.deep_view();
        assert(prev_dv.len() == i);
        c.push(t[i].duplicate());
        assert forall|k: int| 0 <= k < i + 1 implies #[trigger] c.deep_view()[k] == t.deep_view()[k] by {
            if k < i {
                assert(c@[k] == prev[k]);
                assert(prev_dv[k] == t.deep_view()[k]);
            }
        }
        assert(c.deep_view() =~= t.deep_view().take(i + 1));
        i = i + 1;
    }
    assert(t.deep_view().take(i as int) =~= t.deep_view());
    c
}

/// The set of the tuples in `rows`.
pub fn tset(rows: Vec<Tuple>) -> (s: TupleSet)
    ensures
        s@ == rows.deep_view().to_set(),
{
    TupleSet::from_rows(rows)
}

} // verus!
