//! Properties that hold across the operations of the relational algebra.
use vstd::prelude::*;
use crate::value::Atom;
use crate::relation::{
    all_below, has_partner, is_permutation, pick, project_body, projector, restrict_body,
    uniform_arity, Relation,
};
use crate::join::{
    agree, common_columns, first_match, lemma_first_match_bound, lemma_join_positions, join_body, join_heading, joined, r_common, s_common,
    s_extra, unused_below, composition_positions, positions_not_named, shared_names,
};

verus! {

/// The positions `0..n`, in order.
pub open spec fn first_positions(n: nat) -> Seq<usize> {
    Seq::new(n, |i: int| i as usize)
}

/// Permuting the columns of a relation by `p` and then by the inverse
/// permutation `q` gives back the relation's heading and all of its tuples:
/// a permutation keeps every tuple, only reordered.
pub proof fn law_permutation_round_trip(r: Relation, p: Seq<usize>, q: Seq<usize>)
    requires
        r.wf(),
        is_permutation(p, r.heading().len()),
        is_permutation(q, r.heading().len()),
        forall|k: int| 0 <= k < q.len() ==> p[#[trigger] q[k] as int] == k,
    ensures
        pick(pick(r.heading(), p), q) == r.heading(),
        project_body(project_body(r.body(), p), q) == r.body(),
        project_body(r.body(), p).len() == r.body().len(),
{
    r.lemma_wf();
    let n = r.heading().len();
    assert(pick(pick(r.heading(), p), q) =~= r.heading());
    let once = project_body(r.body(), p);
    let twice = project_body(once, q);
    assert forall|t: Seq<Atom>| #[trigger] r.body().contains(t) implies pick(pick(t, p), q) == t by {
        assert(pick(pick(t, p), q) =~= t);
    }
    assert forall|t: Seq<Atom>| #[trigger] twice.contains(t) implies r.body().contains(t) by {
        let y = choose|y: Seq<Atom>| once.contains(y) && t == projector(q)(y);
        let x = choose|x: Seq<Atom>| r.body().contains(x) && y == projector(p)(x);
        assert(pick(pick(x, p), q) == x);
    }
    assert forall|t: Seq<Atom>| #[trigger] r.body().contains(t) implies twice.contains(t) by {
        let y = pick(t, p);
        assert(once.contains(y) && y == projector(p)(t));
        assert(pick(y, q) == t);
        assert(t == projector(q)(y));
    }
    assert(twice =~= r.body());
    assert(vstd::relations::injective_on(projector(p), r.body())) by {
        assert forall|x1: Seq<Atom>, x2: Seq<Atom>|
            r.body().contains(x1) && r.body().contains(x2) && #[trigger] projector(p)(x1) == #[trigger] projector(p)(x2)
            implies x1 == x2 by {
            assert(pick(pick(x1, p), q) == x1);
            assert(pick(pick(x2, p), q) == x2);
        }
    }
    vstd::set_lib::lemma_map_size(r.body(), once, projector(p));
}

/// A projection never has more tuples than the relation it is taken from:
/// tuples that become equal are kept once.
pub proof fn law_projection_cardinality(r: Relation, idx: Seq<usize>)
    requires
        r.wf(),
    ensures
        project_body(r.body(), idx).finite(),
        project_body(r.body(), idx).len() <= r.body().len(),
{
    r.lemma_wf();
    vstd::set_lib::lemma_map_size_bound(r.body(), project_body(r.body(), idx), projector(idx));
}

/// A projection holds exactly the tuples that take, in each position `k`,
/// the value of some tuple of the relation in column `idx[k]`; its `k`th
/// column is the relation's column `idx[k]`.
pub proof fn law_projection_selects_columns(body: Set<Seq<Atom>>, heading: Seq<Seq<char>>, idx: Seq<usize>)
    ensures
        pick(heading, idx).len() == idx.len(),
        forall|k: int| 0 <= k < idx.len() ==> #[trigger] pick(heading, idx)[k] == heading[idx[k] as int],
        forall|t: Seq<Atom>| #[trigger] project_body(body, idx).contains(t) <==> t.len() == idx.len()
            && exists|a: Seq<Atom>| #[trigger] body.contains(a)
                && forall|k: int| 0 <= k < idx.len() ==> #[trigger] t[k] == a[idx[k] as int],
{
    assert forall|t: Seq<Atom>| #[trigger] project_body(body, idx).contains(t) <==> t.len() == idx.len()
        && exists|a: Seq<Atom>| #[trigger] body.contains(a)
            && forall|k: int| 0 <= k < idx.len() ==> #[trigger] t[k] == a[idx[k] as int] by {
        if project_body(body, idx).contains(t) {
            let a = choose|a: Seq<Atom>| body.contains(a) && t == projector(idx)(a);
            assert(forall|k: int| 0 <= k < idx.len() ==> #[trigger] t[k] == a[idx[k] as int]);
        }
        if t.len() == idx.len() && exists|a: Seq<Atom>| #[trigger] body.contains(a)
            && forall|k: int| 0 <= k < idx.len() ==> #[trigger] t[k] == a[idx[k] as int] {
            let a = choose|a: Seq<Atom>| #[trigger] body.contains(a)
                && forall|k: int| 0 <= k < idx.len() ==> #[trigger] t[k] == a[idx[k] as int];
            assert(t =~= pick(a, idx));
            assert(t == projector(idx)(a));
        }
    }
}

proof fn lemma_no_match_when_absent(name: Seq<char>, sc: Seq<Seq<char>>, used: Seq<usize>, from: int)
    requires
        !sc.contains(name),
    ensures
        first_match(name, sc, used, from) is None,
    decreases sc.len() - from,
{
    if 0 <= from < sc.len() {
        assert(sc[from] != name);
        lemma_no_match_when_absent(name, sc, used, from + 1);
    }
}

proof fn lemma_no_common_columns(rc: Seq<Seq<char>>, sc: Seq<Seq<char>>, k: nat)
    requires
        k <= rc.len(),
        forall|i: int| 0 <= i < rc.len() ==> !sc.contains(#[trigger] rc[i]),
    ensures
        common_columns(rc, sc, k) == (Seq::<usize>::empty(), Seq::<usize>::empty()),
    decreases k,
{
    if k > 0 {
        lemma_no_common_columns(rc, sc, (k - 1) as nat);
        lemma_no_match_when_absent(rc[k - 1], sc, Seq::empty(), 0);
    }
}

proof fn lemma_unused_below_empty(n: nat)
    requires
        n <= usize::MAX,
    ensures
        unused_below(n, Seq::empty()) == first_positions(n),
    decreases n,
{
    if n > 0 {
        lemma_unused_below_empty((n - 1) as nat);
        assert(unused_below(n, Seq::empty()) =~= first_positions(n));
    }
}

/// When `r` and `s` share no column name, their natural join is their
/// Cartesian product: all columns of `r` then all of `s`, and every tuple
/// of `r` followed by every tuple of `s`.
pub proof fn law_join_without_common_columns_is_product(r: Relation, s: Relation)
    requires
        r.wf(),
        s.wf(),
        forall|i: int| 0 <= i < r.heading().len() ==> !s.heading().contains(#[trigger] r.heading()[i]),
    ensures
        join_heading(r.heading(), s.heading()) == r.heading() + s.heading(),
        join_body(r.body(), s.body(), r.heading(), s.heading()) == Set::new(|t: Seq<Atom>|
            exists|a: Seq<Atom>, b: Seq<Atom>| #[trigger] r.body().contains(a) && #[trigger] s.body().contains(b) && t == a + b),
{
    r.lemma_wf();
    s.lemma_wf();
    let rc = r.heading();
    let sc = s.heading();
    lemma_no_common_columns(rc, sc, rc.len());
    lemma_unused_below_empty(sc.len());
    assert(s_extra(rc, sc) == first_positions(sc.len()));
    assert(pick(sc, first_positions(sc.len())) =~= sc);
    assert forall|b: Seq<Atom>| #[trigger] s.body().contains(b) implies pick(b, s_extra(rc, sc)) == b by {
        assert(pick(b, first_positions(sc.len())) =~= b);
    }
    assert forall|a: Seq<Atom>, b: Seq<Atom>| #[trigger] agree(a, b, rc, sc) by {
        assert(pick(a, r_common(rc, sc)) =~= pick(b, s_common(rc, sc)));
    }
    let product = Set::new(|t: Seq<Atom>|
        exists|a: Seq<Atom>, b: Seq<Atom>| #[trigger] r.body().contains(a) && #[trigger] s.body().contains(b) && t == a + b);
    let jb = join_body(r.body(), s.body(), rc, sc);
    assert forall|t: Seq<Atom>| #[trigger] jb.contains(t) implies product.contains(t) by {
        let (a, b) = choose|a: Seq<Atom>, b: Seq<Atom>|
            #[trigger] r.body().contains(a) && #[trigger] s.body().contains(b) && agree(a, b, rc, sc) && t == joined(a, b, rc, sc);
        assert(t == a + b);
    }
    assert forall|t: Seq<Atom>| #[trigger] product.contains(t) implies jb.contains(t) by {
        let (a, b) = choose|a: Seq<Atom>, b: Seq<Atom>|
            #[trigger] r.body().contains(a) && #[trigger] s.body().contains(b) && t == a + b;
        assert(agree(a, b, rc, sc) && t == joined(a, b, rc, sc));
    }
    assert(jb =~= product);
}

/// Projecting a natural join of `r` and `s` onto the columns of `r` gives
/// only tuples of `r`; it gives all of them when every tuple of `r` agrees
/// with some tuple of `s` on the joining columns.
pub proof fn law_join_projects_onto_left(r: Relation, s: Relation)
    requires
        r.wf(),
        s.wf(),
    ensures
        project_body(join_body(r.body(), s.body(), r.heading(), s.heading()), first_positions(r.heading().len())).subset_of(r.body()),
        (forall|a: Seq<Atom>| #[trigger] r.body().contains(a) ==> exists|b: Seq<Atom>| #[trigger] s.body().contains(b) && agree(a, b, r.heading(), s.heading()))
            ==> project_body(join_body(r.body(), s.body(), r.heading(), s.heading()), first_positions(r.heading().len())) == r.body(),
{
    r.lemma_wf();
    let rc = r.heading();
    let sc = s.heading();
    let n = rc.len();
    let jb = join_body(r.body(), s.body(), rc, sc);
    let pb = project_body(jb, first_positions(n));
    assert forall|a: Seq<Atom>, b: Seq<Atom>| r.body().contains(a) implies #[trigger] pick(joined(a, b, rc, sc), first_positions(n)) == a by {
        assert(pick(joined(a, b, rc, sc), first_positions(n)) =~= a);
    }
    assert forall|t: Seq<Atom>| #[trigger] pb.contains(t) implies r.body().contains(t) by {
        let y = choose|y: Seq<Atom>| jb.contains(y) && t == projector(first_positions(n))(y);
        let (a, b) = choose|a: Seq<Atom>, b: Seq<Atom>|
            #[trigger] r.body().contains(a) && #[trigger] s.body().contains(b) && agree(a, b, rc, sc) && y == joined(a, b, rc, sc);
        assert(pick(joined(a, b, rc, sc), first_positions(n)) == a);
    }
    if forall|a: Seq<Atom>| #[trigger] r.body().contains(a) ==> exists|b: Seq<Atom>| #[trigger] s.body().contains(b) && agree(a, b, rc, sc) {
        assert forall|a: Seq<Atom>| #[trigger] r.body().contains(a) implies pb.contains(a) by {
            let b = choose|b: Seq<Atom>| #[trigger] s.body().contains(b) && agree(a, b, rc, sc);
            let y = joined(a, b, rc, sc);
            assert(jb.contains(y));
            assert(pick(y, first_positions(n)) == a);
            assert(a == projector(first_positions(n))(y));
        }
        assert(pb =~= r.body());
    }
}

/// A restriction keeps only tuples of `r`, and restricting its result
/// again by the same relation and columns changes nothing.
pub proof fn law_restriction_subset_and_idempotent(
    r_body: Set<Seq<Atom>>,
    s_body: Set<Seq<Atom>>,
    r_cols: Seq<usize>,
    s_cols: Seq<usize>,
)
    ensures
        restrict_body(r_body, s_body, r_cols, s_cols).subset_of(r_body),
        restrict_body(restrict_body(r_body, s_body, r_cols, s_cols), s_body, r_cols, s_cols)
            == restrict_body(r_body, s_body, r_cols, s_cols),
{
    let once = restrict_body(r_body, s_body, r_cols, s_cols);
    let twice = restrict_body(once, s_body, r_cols, s_cols);
    assert(twice =~= once);
}

proof fn lemma_first_match_found(name: Seq<char>, sc: Seq<Seq<char>>, used: Seq<usize>, from: int, j: int)
    requires
        0 <= from <= j < sc.len() <= usize::MAX,
        sc[j] == name,
        !used.contains(j as usize),
    ensures
        first_match(name, sc, used, from) is Some,
    decreases j - from,
{
    if from < j {
        if !(sc[from] == name && !used.contains(from as usize)) {
            lemma_first_match_found(name, sc, used, from + 1, j);
        }
    }
}

pub(crate) proof fn lemma_common_columns_props(rc: Seq<Seq<char>>, sc: Seq<Seq<char>>, k: nat)
    requires
        k <= rc.len() <= usize::MAX,
        sc.len() <= usize::MAX,
    ensures
        ({
            let (ri, si) = common_columns(rc, sc, k);
            &&& ri.len() == si.len()
            &&& forall|m: int| 0 <= m < ri.len() ==> #[trigger] ri[m] < k && si[m] < sc.len()
            &&& forall|m: int| 0 <= m < ri.len() ==> rc[#[trigger] ri[m] as int] == sc[si[m] as int]
            &&& forall|m: int, n: int| 0 <= m < n < ri.len() ==> #[trigger] ri[m] < #[trigger] ri[n]
            &&& si.no_duplicates()
            &&& rc.no_duplicates() ==> forall|i: int| 0 <= i < k && sc.contains(#[trigger] rc[i]) ==> ri.contains(i as usize)
        }),
    decreases k,
{
    if k > 0 {
        let prev = common_columns(rc, sc, (k - 1) as nat);
        lemma_common_columns_props(rc, sc, (k - 1) as nat);
        let name = rc[k - 1];
        lemma_first_match_bound(name, sc, prev.1, 0);
        let (ri, si) = common_columns(rc, sc, k);
        if rc.no_duplicates() && sc.contains(name) {
            let j = choose|j: int| 0 <= j < sc.len() && sc[j] == name;
            if prev.1.contains(j as usize) {
                let m = choose|m: int| 0 <= m < prev.1.len() && prev.1[m] == j as usize;
                assert(rc[prev.0[m] as int] == sc[j]);
                assert(prev.0[m] < k - 1);
            }
            lemma_first_match_found(name, sc, prev.1, 0, j);
            assert(ri.contains((k - 1) as usize)) by {
                assert(ri[ri.len() - 1] == (k - 1) as usize);
            }
        }
        assert forall|i: int| rc.no_duplicates() && 0 <= i < k && sc.contains(#[trigger] rc[i]) implies ri.contains(i as usize) by {
            if i < k - 1 {
                let m = choose|m: int| 0 <= m < prev.0.len() && prev.0[m] == i as usize;
                assert(ri[m] == i as usize);
            }
        }
    }
}

/// The natural join pairs columns of equal names; no column of `s` is
/// paired twice, the columns of `r` are taken in order, and when the
/// column names of `r` are distinct, every column of `r` whose name occurs
/// in `s` is paired.
pub proof fn law_join_matches_each_column_once(r: Relation, s: Relation)
    requires
        r.wf(),
        s.wf(),
    ensures
        r_common(r.heading(), s.heading()).len() == s_common(r.heading(), s.heading()).len(),
        forall|m: int| 0 <= m < r_common(r.heading(), s.heading()).len() ==>
            r.heading()[#[trigger] r_common(r.heading(), s.heading())[m] as int] == s.heading()[s_common(r.heading(), s.heading())[m] as int],
        forall|m: int, n: int| 0 <= m < n < r_common(r.heading(), s.heading()).len() ==>
            #[trigger] r_common(r.heading(), s.heading())[m] < #[trigger] r_common(r.heading(), s.heading())[n],
        s_common(r.heading(), s.heading()).no_duplicates(),
        r.heading().no_duplicates() ==> forall|i: int| 0 <= i < r.heading().len() && s.heading().contains(#[trigger] r.heading()[i])
            ==> r_common(r.heading(), s.heading()).contains(i as usize),
{
    r.lemma_wf();
    s.lemma_wf();
    lemma_common_columns_props(r.heading(), s.heading(), r.heading().len());
}

/// A restriction keeps exactly the tuples `t` of `r` for which some tuple
/// `b` of `s` holds, in each listed column `s_cols[k]`, the value that `t`
/// holds in the matching column `r_cols[k]`.
pub proof fn law_restriction_matches_listed_columns(
    r_body: Set<Seq<Atom>>,
    s_body: Set<Seq<Atom>>,
    r_cols: Seq<usize>,
    s_cols: Seq<usize>,
)
    requires
        r_cols.len() == s_cols.len(),
    ensures
        forall|t: Seq<Atom>| #[trigger] restrict_body(r_body, s_body, r_cols, s_cols).contains(t) <==> r_body.contains(t)
            && exists|b: Seq<Atom>| #[trigger] s_body.contains(b)
                && forall|k: int| 0 <= k < r_cols.len() ==> b[s_cols[k] as int] == #[trigger] t[r_cols[k] as int],
{
    assert forall|t: Seq<Atom>| #[trigger] restrict_body(r_body, s_body, r_cols, s_cols).contains(t) <==> r_body.contains(t)
        && exists|b: Seq<Atom>| #[trigger] s_body.contains(b)
            && forall|k: int| 0 <= k < r_cols.len() ==> b[s_cols[k] as int] == #[trigger] t[r_cols[k] as int] by {
        if restrict_body(r_body, s_body, r_cols, s_cols).contains(t) {
            let b = choose|b: Seq<Atom>| #[trigger] s_body.contains(b) && pick(b, s_cols) == pick(t, r_cols);
            assert forall|k: int| 0 <= k < r_cols.len() implies b[s_cols[k] as int] == #[trigger] t[r_cols[k] as int] by {
                assert(pick(b, s_cols)[k] == pick(t, r_cols)[k]);
            }
        }
        if r_body.contains(t) && exists|b: Seq<Atom>| #[trigger] s_body.contains(b)
            && forall|k: int| 0 <= k < r_cols.len() ==> b[s_cols[k] as int] == #[trigger] t[r_cols[k] as int] {
            let b = choose|b: Seq<Atom>| #[trigger] s_body.contains(b)
                && forall|k: int| 0 <= k < r_cols.len() ==> b[s_cols[k] as int] == #[trigger] t[r_cols[k] as int];
            assert(pick(b, s_cols) =~= pick(t, r_cols));
            assert(has_partner(t, s_body, r_cols, s_cols));
        }
    }
}

proof fn lemma_shared_names_contains(rc: Seq<Seq<char>>, sc: Seq<Seq<char>>, k: nat)
    requires
        k <= rc.len(),
    ensures
        forall|n: Seq<char>| #[trigger] shared_names(rc, sc, k).contains(n)
            <==> (exists|i: int| 0 <= i < k && rc[i] == n) && sc.contains(n),
    decreases k,
{
    broadcast use vstd::seq_lib::group_seq_properties;
    if k > 0 {
        lemma_shared_names_contains(rc, sc, (k - 1) as nat);
        let p = shared_names(rc, sc, (k - 1) as nat);
        let q = shared_names(rc, sc, k);
        assert forall|n: Seq<char>| #[trigger] q.contains(n)
            <==> (exists|i: int| 0 <= i < k && rc[i] == n) && sc.contains(n) by {
            if q.contains(n) {
                if p.contains(n) {
                    let i = choose|i: int| 0 <= i < k - 1 && rc[i] == n;
                    assert(0 <= i < k && rc[i] == n);
                } else {
                    assert(0 <= k - 1 < k && rc[k - 1] == n);
                }
            }
            if (exists|i: int| 0 <= i < k && rc[i] == n) && sc.contains(n) {
                let i = choose|i: int| 0 <= i < k && rc[i] == n;
                if i < k - 1 {
                    assert(p.contains(n));
                }
            }
        }
    }
}

proof fn lemma_positions_not_named(heading: Seq<Seq<char>>, names: Seq<Seq<char>>, n: nat)
    requires
        n <= usize::MAX,
    ensures
        forall|j: usize| #[trigger] positions_not_named(heading, names, n).contains(j)
            <==> (j < n && !names.contains(heading[j as int])),
        forall|a: int, b: int| 0 <= a < b < positions_not_named(heading, names, n).len()
            ==> #[trigger] positions_not_named(heading, names, n)[a] < #[trigger] positions_not_named(heading, names, n)[b],
        all_below(positions_not_named(heading, names, n), n),
    decreases n,
{
    broadcast use vstd::seq_lib::group_seq_properties;
    if n > 0 {
        lemma_positions_not_named(heading, names, (n - 1) as nat);
    }
}

/// The composition of `r` and `s` keeps, in the order of their join, exactly
/// the columns of the join whose names are not names of both `r` and `s`:
/// every shared name is dropped, however many there are, and every other
/// column stays.
pub proof fn law_composition_drops_shared_names(r: Relation, s: Relation)
    requires
        r.wf(),
        s.wf(),
        join_heading(r.heading(), s.heading()).len() <= usize::MAX,
    ensures
        forall|i: int| 0 <= i < join_heading(r.heading(), s.heading()).len() ==>
            (#[trigger] composition_positions(r.heading(), s.heading()).contains(i as usize)
                <==> !(r.heading().contains(join_heading(r.heading(), s.heading())[i])
                    && s.heading().contains(join_heading(r.heading(), s.heading())[i]))),
        all_below(composition_positions(r.heading(), s.heading()), join_heading(r.heading(), s.heading()).len()),
        forall|a: int, b: int| 0 <= a < b < composition_positions(r.heading(), s.heading()).len()
            ==> #[trigger] composition_positions(r.heading(), s.heading())[a]
                < #[trigger] composition_positions(r.heading(), s.heading())[b],
        forall|n: Seq<char>| #[trigger] pick(join_heading(r.heading(), s.heading()), composition_positions(r.heading(), s.heading())).contains(n)
            <==> join_heading(r.heading(), s.heading()).contains(n) && !(r.heading().contains(n) && s.heading().contains(n)),
{
    r.lemma_wf();
    s.lemma_wf();
    let rc = r.heading();
    let sc = s.heading();
    let jh = join_heading(rc, sc);
    lemma_join_positions(rc, sc);
    let names = shared_names(rc, sc, rc.len());
    lemma_shared_names_contains(rc, sc, rc.len());
    lemma_positions_not_named(jh, names, jh.len());
    let cp = composition_positions(rc, sc);
    assert forall|n: Seq<char>| #[trigger] names.contains(n) <==> rc.contains(n) && sc.contains(n) by {
        if rc.contains(n) && sc.contains(n) {
            let i = choose|i: int| 0 <= i < rc.len() && rc[i] == n;
        }
    }
    assert forall|i: int| 0 <= i < jh.len() implies
        (#[trigger] cp.contains(i as usize) <==> !(rc.contains(jh[i]) && sc.contains(jh[i]))) by {
        assert(names.contains(jh[i]) <==> rc.contains(jh[i]) && sc.contains(jh[i]));
    }
    let pj = pick(jh, cp);
    assert forall|n: Seq<char>| #[trigger] pj.contains(n) <==> jh.contains(n) && !(rc.contains(n) && sc.contains(n)) by {
        if pj.contains(n) {
            let m = choose|m: int| 0 <= m < pj.len() && pj[m] == n;
            assert(cp.contains(cp[m]));
            assert(cp[m] < jh.len());
            assert(jh[cp[m] as int] == n);
        }
        if jh.contains(n) && !(rc.contains(n) && sc.contains(n)) {
            let i = choose|i: int| 0 <= i < jh.len() && jh[i] == n;
            assert(cp.contains(i as usize));
            let m = choose|m: int| 0 <= m < cp.len() && cp[m] == i as usize;
            assert(pj[m] == n);
        }
    }
}

} // verus!
