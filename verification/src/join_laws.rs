//! Properties of the natural join of relations whose column names are
//! distinct: the heading it builds, and that it does not depend on the order
//! of its operands once tuples are read by column name.
use vstd::prelude::*;
use crate::value::Atom;
use crate::relation::{all_below, pick, uniform_arity, Relation};
use crate::join::{
    agree, common_columns, first_match, join_body, join_heading, joined, lemma_first_match_bound,
    lemma_join_positions, r_common, s_common, s_extra, shared_names, unused_below,
};
use crate::laws::{first_positions, lemma_common_columns_props};

verus! {

broadcast use vstd::seq_lib::group_seq_properties;

/// In a sequence without repeats, an element's index is its position.
proof fn lemma_index_of_distinct<A>(s: Seq<A>, i: int)
    requires
        s.no_duplicates(),
        0 <= i < s.len(),
    ensures
        s.index_of(s[i]) == i,
{
    assert(0 <= i < s.len() && s[i] == s[i]);
    let j = s.index_of(s[i]);
    assert(0 <= j < s.len() && s[j] == s[i]);
}

proof fn lemma_unused_below_props(n: nat, used: Seq<usize>)
    requires
        n <= usize::MAX,
    ensures
        forall|j: usize| #[trigger] unused_below(n, used).contains(j) <==> (j < n && !used.contains(j)),
        forall|a: int, b: int| 0 <= a < b < unused_below(n, used).len()
            ==> #[trigger] unused_below(n, used)[a] < #[trigger] unused_below(n, used)[b],
        all_below(unused_below(n, used), n),
    decreases n,
{
    if n > 0 {
        let p = unused_below((n - 1) as nat, used);
        lemma_unused_below_props((n - 1) as nat, used);
        if !used.contains((n - 1) as usize) {
            let q = p.push((n - 1) as usize);
            assert forall|j: usize| #[trigger] q.contains(j) <==> (j < n && !used.contains(j)) by {
                if q.contains(j) && j != (n - 1) as usize {
                    let k = choose|k: int| 0 <= k < q.len() && q[k] == j;
                    assert(p[k] == j);
                }
                if j < n && !used.contains(j) && j != (n - 1) as usize {
                    assert(p.contains(j));
                    let k = choose|k: int| 0 <= k < p.len() && p[k] == j;
                    assert(q[k] == j);
                }
            }
        }
    }
}

/// `unused_below(n, used)` and `used` together list `0..n` once each.
proof fn lemma_partition_len(n: nat, used: Seq<usize>)
    requires
        n <= usize::MAX,
        used.no_duplicates(),
        all_below(used, n),
    ensures
        unused_below(n, used).len() + used.len() == n,
{
    lemma_unused_below_props(n, used);
    let e = unused_below(n, used);
    let f = first_positions(n);
    assert(e.no_duplicates()) by {
        assert forall|a: int, b: int| 0 <= a < e.len() && 0 <= b < e.len() && a != b implies e[a] != e[b] by {
            if a < b {
                assert(e[a] < e[b]);
            } else {
                assert(e[b] < e[a]);
            }
        }
    }
    assert(f.no_duplicates());
    e.unique_seq_to_set();
    used.unique_seq_to_set();
    f.unique_seq_to_set();
    let es = e.to_set();
    let us = used.to_set();
    assert(es.disjoint(us));
    assert forall|j: usize| #[trigger] (es + us).contains(j) <==> f.to_set().contains(j) by {
        if j < n {
            assert(f[j as int] == j);
        }
        if (es + us).contains(j) && !es.contains(j) {
            let k = choose|k: int| 0 <= k < used.len() && used[k] == j;
            assert(used[k] < n);
        }
    }
    assert(es + us =~= f.to_set());
    vstd::seq_lib::seq_to_set_is_finite(e);
    vstd::seq_lib::seq_to_set_is_finite(used);
    vstd::set_lib::lemma_set_disjoint_lens(es, us);
}

/// With distinct names, a column of `sc` is a joining column exactly when
/// its name is a column of `rc`.
proof fn lemma_s_common_names(rc: Seq<Seq<char>>, sc: Seq<Seq<char>>)
    requires
        rc.len() <= usize::MAX,
        sc.len() <= usize::MAX,
        rc.no_duplicates(),
        sc.no_duplicates(),
    ensures
        forall|j: int| 0 <= j < sc.len() ==> (#[trigger] s_common(rc, sc).contains(j as usize) <==> rc.contains(sc[j])),
{
    lemma_common_columns_props(rc, sc, rc.len());
    let ri = r_common(rc, sc);
    let si = s_common(rc, sc);
    assert forall|j: int| 0 <= j < sc.len() implies (#[trigger] si.contains(j as usize) <==> rc.contains(sc[j])) by {
        if si.contains(j as usize) {
            let m = choose|m: int| 0 <= m < si.len() && si[m] == j as usize;
            assert(rc[ri[m] as int] == sc[si[m] as int]);
            assert(ri[m] < rc.len());
        }
        if rc.contains(sc[j]) {
            let i = choose|i: int| 0 <= i < rc.len() && rc[i] == sc[j];
            assert(sc.contains(rc[i]));
            assert(ri.contains(i as usize));
            let m = choose|m: int| 0 <= m < ri.len() && ri[m] == i as usize;
            assert(rc[ri[m] as int] == sc[si[m] as int]);
            assert(si[m] < sc.len());
            assert(si[m] as int == j);
        }
    }
}

/// The names shared by `rc` and `sc`, counted as `shared_names` counts them,
/// are as many as the joining columns.
proof fn lemma_shared_names(rc: Seq<Seq<char>>, sc: Seq<Seq<char>>, k: nat)
    requires
        k <= rc.len() <= usize::MAX,
        sc.len() <= usize::MAX,
        rc.no_duplicates(),
    ensures
        shared_names(rc, sc, k).len() == common_columns(rc, sc, k).0.len(),
        forall|n: Seq<char>| #[trigger] shared_names(rc, sc, k).contains(n)
            <==> (exists|i: int| 0 <= i < k && rc[i] == n) && sc.contains(n),
    decreases k,
{
    if k > 0 {
        let name = rc[k - 1];
        let prev = common_columns(rc, sc, (k - 1) as nat);
        let p = shared_names(rc, sc, (k - 1) as nat);
        lemma_shared_names(rc, sc, (k - 1) as nat);
        lemma_common_columns_props(rc, sc, (k - 1) as nat);
        lemma_common_columns_props(rc, sc, k);
        lemma_first_match_bound(name, sc, prev.1, 0);
        if sc.contains(name) {
            assert(common_columns(rc, sc, k).0.contains((k - 1) as usize));
            if first_match(name, sc, prev.1, 0) is None {
                let m = choose|m: int| 0 <= m < prev.0.len() && prev.0[m] == (k - 1) as usize;
                assert(prev.0[m] < k - 1);
            }
        }
        let q = shared_names(rc, sc, k);
        assert forall|n: Seq<char>| #[trigger] q.contains(n)
            <==> (exists|i: int| 0 <= i < k && rc[i] == n) && sc.contains(n) by {
            if q.contains(n) && n != name {
                let m = choose|m: int| 0 <= m < q.len() && q[m] == n;
                assert(p[m] == n);
                assert(p.contains(n));
                let i = choose|i: int| 0 <= i < k - 1 && rc[i] == n;
                assert(0 <= i < k && rc[i] == n);
            }
            if q.contains(n) && n == name {
                assert(0 <= k - 1 < k && rc[k - 1] == n);
                if !sc.contains(name) {
                    assert(q == p);
                    let i = choose|i: int| 0 <= i < k - 1 && rc[i] == n;
                    assert(rc[i] == rc[k - 1]);
                }
            }
            if (exists|i: int| 0 <= i < k && rc[i] == n) && sc.contains(n) {
                let i = choose|i: int| 0 <= i < k && rc[i] == n;
                if i < k - 1 {
                    assert(p.contains(n));
                    let m = choose|m: int| 0 <= m < p.len() && p[m] == n;
                    assert(q[m] == n);
                } else {
                    assert(q[q.len() - 1] == n);
                }
            }
        }
    }
}

/// The heading of a join of relations with distinct column names: it has
/// no repeated name, it names exactly the columns of both, and its extra
/// columns are those of `sc` whose names `rc` lacks.
proof fn lemma_join_heading_props(rc: Seq<Seq<char>>, sc: Seq<Seq<char>>)
    requires
        rc.len() <= usize::MAX,
        sc.len() <= usize::MAX,
        rc.no_duplicates(),
        sc.no_duplicates(),
    ensures
        join_heading(rc, sc).no_duplicates(),
        forall|n: Seq<char>| #[trigger] join_heading(rc, sc).contains(n) <==> rc.contains(n) || sc.contains(n),
        forall|j: int| 0 <= j < sc.len() ==> (#[trigger] s_extra(rc, sc).contains(j as usize) <==> !rc.contains(sc[j])),
        join_heading(rc, sc).len() + shared_names(rc, sc, rc.len()).len() == rc.len() + sc.len(),
        forall|n: Seq<char>| #[trigger] shared_names(rc, sc, rc.len()).contains(n) <==> rc.contains(n) && sc.contains(n),
{
    lemma_join_positions(rc, sc);
    lemma_common_columns_props(rc, sc, rc.len());
    lemma_s_common_names(rc, sc);
    let si = s_common(rc, sc);
    let ex = s_extra(rc, sc);
    lemma_unused_below_props(sc.len(), si);
    lemma_partition_len(sc.len(), si);
    lemma_shared_names(rc, sc, rc.len());
    let jh = join_heading(rc, sc);
    assert forall|j: int| 0 <= j < sc.len() implies (#[trigger] ex.contains(j as usize) <==> !rc.contains(sc[j])) by {
        assert(si.contains(j as usize) <==> rc.contains(sc[j]));
    }
    assert forall|a: int, b: int| 0 <= a < jh.len() && 0 <= b < jh.len() && a != b implies jh[a] != jh[b] by {
        let n = rc.len() as int;
        if a < n && b < n {
        } else if a >= n && b >= n {
            assert(ex[a - n] != ex[b - n]) by {
                if a < b {
                    assert(ex[a - n] < ex[b - n]);
                } else {
                    assert(ex[b - n] < ex[a - n]);
                }
            }
            assert(ex[a - n] < sc.len() && ex[b - n] < sc.len());
        } else if a < n {
            let j = ex[b - n] as int;
            assert(ex.contains(j as usize));
            assert(!rc.contains(sc[j]));
        } else {
            let j = ex[a - n] as int;
            assert(ex.contains(j as usize));
            assert(!rc.contains(sc[j]));
        }
    }
    assert forall|n: Seq<char>| #[trigger] jh.contains(n) <==> rc.contains(n) || sc.contains(n) by {
        if jh.contains(n) {
            let k = choose|k: int| 0 <= k < jh.len() && jh[k] == n;
            if k >= rc.len() {
                assert(ex[k - rc.len()] < sc.len());
                assert(sc[ex[k - rc.len()] as int] == n);
            }
        }
        if rc.contains(n) {
            let k = choose|k: int| 0 <= k < rc.len() && rc[k] == n;
            assert(jh[k] == n);
        } else if sc.contains(n) {
            let j = choose|j: int| 0 <= j < sc.len() && sc[j] == n;
            assert(ex.contains(j as usize));
            let m = choose|m: int| 0 <= m < ex.len() && ex[m] == j as usize;
            assert(jh[rc.len() + m] == n);
        }
    }
    assert forall|n: Seq<char>| #[trigger] shared_names(rc, sc, rc.len()).contains(n) <==> rc.contains(n) && sc.contains(n) by {
        if rc.contains(n) && sc.contains(n) {
            let i = choose|i: int| 0 <= i < rc.len() && rc[i] == n;
        }
    }
}

/// The join of two relations whose column names are distinct has distinct
/// column names: those of `r`, then those of `s` that `r` lacks. Its degree
/// is the sum of the degrees less the number of shared names, and every
/// tuple has that many values.
pub proof fn law_join_heading_distinct(r: Relation, s: Relation)
    requires
        r.wf(),
        s.wf(),
        r.heading().no_duplicates(),
        s.heading().no_duplicates(),
    ensures
        join_heading(r.heading(), s.heading()).no_duplicates(),
        forall|n: Seq<char>| #[trigger] join_heading(r.heading(), s.heading()).contains(n)
            <==> r.heading().contains(n) || s.heading().contains(n),
        forall|n: Seq<char>| #[trigger] shared_names(r.heading(), s.heading(), r.heading().len()).contains(n)
            <==> r.heading().contains(n) && s.heading().contains(n),
        join_heading(r.heading(), s.heading()).len() + shared_names(r.heading(), s.heading(), r.heading().len()).len()
            == r.heading().len() + s.heading().len(),
        uniform_arity(join_body(r.body(), s.body(), r.heading(), s.heading()), join_heading(r.heading(), s.heading()).len()),
{
    r.lemma_wf();
    s.lemma_wf();
    let rc = r.heading();
    let sc = s.heading();
    lemma_join_heading_props(rc, sc);
    lemma_join_positions(rc, sc);
    assert forall|t: Seq<Atom>| #[trigger] join_body(r.body(), s.body(), rc, sc).contains(t) implies t.len() == join_heading(rc, sc).len() by {
        let (a, b) = choose|a: Seq<Atom>, b: Seq<Atom>|
            #[trigger] r.body().contains(a) && #[trigger] s.body().contains(b) && agree(a, b, rc, sc) && t == joined(a, b, rc, sc);
    }
}

/// The tuple `u` under `heading` read by column name: each name of the
/// heading maps to the value in its column.
pub open spec fn by_name(u: Seq<Atom>, heading: Seq<Seq<char>>) -> Map<Seq<char>, Atom> {
    Map::new(|n: Seq<char>| heading.contains(n), |n: Seq<char>| u[heading.index_of(n)])
}

/// The tuples of `body` under `heading`, each read by column name.
pub open spec fn by_name_body(body: Set<Seq<Atom>>, heading: Seq<Seq<char>>) -> Set<Map<Seq<char>, Atom>> {
    body.map(|u: Seq<Atom>| by_name(u, heading))
}

/// `a` under `rc` and `b` under `sc` hold equal values under every name
/// they share.
spec fn consistent(a: Seq<Atom>, rc: Seq<Seq<char>>, b: Seq<Atom>, sc: Seq<Seq<char>>) -> bool {
    forall|n: Seq<char>| rc.contains(n) && sc.contains(n) ==> #[trigger] a[rc.index_of(n)] == b[sc.index_of(n)]
}

/// The names of both headings, each with the value that `a` gives it, or
/// else the value that `b` gives it.
spec fn merged(a: Seq<Atom>, rc: Seq<Seq<char>>, b: Seq<Atom>, sc: Seq<Seq<char>>) -> Map<Seq<char>, Atom> {
    Map::new(
        |n: Seq<char>| rc.contains(n) || sc.contains(n),
        |n: Seq<char>| if rc.contains(n) { a[rc.index_of(n)] } else { b[sc.index_of(n)] },
    )
}

proof fn lemma_index_of_contains<A>(s: Seq<A>, x: A)
    requires
        s.contains(x),
    ensures
        0 <= s.index_of(x) < s.len(),
        s[s.index_of(x)] == x,
{
}

/// With distinct names, `a` and `b` agree on the joining columns exactly
/// when they hold equal values under every shared name.
proof fn lemma_agree_consistent(a: Seq<Atom>, b: Seq<Atom>, rc: Seq<Seq<char>>, sc: Seq<Seq<char>>)
    requires
        rc.len() <= usize::MAX,
        sc.len() <= usize::MAX,
        rc.no_duplicates(),
        sc.no_duplicates(),
        a.len() == rc.len(),
        b.len() == sc.len(),
    ensures
        agree(a, b, rc, sc) <==> consistent(a, rc, b, sc),
{
    lemma_join_positions(rc, sc);
    lemma_common_columns_props(rc, sc, rc.len());
    let ri = r_common(rc, sc);
    let si = s_common(rc, sc);
    if agree(a, b, rc, sc) {
        assert forall|n: Seq<char>| rc.contains(n) && sc.contains(n) implies #[trigger] a[rc.index_of(n)] == b[sc.index_of(n)] by {
            lemma_index_of_contains(rc, n);
            lemma_index_of_contains(sc, n);
            let i = rc.index_of(n);
            assert(sc.contains(rc[i]));
            assert(ri.contains(i as usize));
            let m = choose|m: int| 0 <= m < ri.len() && ri[m] == i as usize;
            assert(rc[ri[m] as int] == sc[si[m] as int]);
            assert(si[m] < sc.len());
            lemma_index_of_distinct(sc, si[m] as int);
            assert(pick(a, ri)[m] == pick(b, si)[m]);
        }
    }
    if consistent(a, rc, b, sc) {
        assert forall|m: int| 0 <= m < ri.len() implies pick(a, ri)[m] == pick(b, si)[m] by {
            let n = rc[ri[m] as int];
            assert(rc[ri[m] as int] == sc[si[m] as int]);
            assert(ri[m] < rc.len() && si[m] < sc.len());
            lemma_index_of_distinct(rc, ri[m] as int);
            lemma_index_of_distinct(sc, si[m] as int);
            assert(rc.contains(n) && sc.contains(n));
            assert(a[rc.index_of(n)] == b[sc.index_of(n)]);
        }
        assert(pick(a, ri) =~= pick(b, si));
    }
}

/// With distinct names, the joined tuple read by column name is the merge
/// of its two parts.
proof fn lemma_joined_by_name(a: Seq<Atom>, b: Seq<Atom>, rc: Seq<Seq<char>>, sc: Seq<Seq<char>>)
    requires
        rc.len() <= usize::MAX,
        sc.len() <= usize::MAX,
        rc.no_duplicates(),
        sc.no_duplicates(),
        a.len() == rc.len(),
        b.len() == sc.len(),
    ensures
        by_name(joined(a, b, rc, sc), join_heading(rc, sc)) == merged(a, rc, b, sc),
{
    lemma_join_positions(rc, sc);
    lemma_join_heading_props(rc, sc);
    let jh = join_heading(rc, sc);
    let ex = s_extra(rc, sc);
    let u = joined(a, b, rc, sc);
    let x = by_name(u, jh);
    let y = merged(a, rc, b, sc);
    assert forall|n: Seq<char>| #[trigger] x.dom().contains(n) implies x[n] == y[n] by {
        if rc.contains(n) {
            lemma_index_of_contains(rc, n);
            let i = rc.index_of(n);
            assert(jh[i] == n);
            lemma_index_of_distinct(jh, i);
        } else {
            lemma_index_of_contains(sc, n);
            let j = sc.index_of(n);
            assert(ex.contains(j as usize));
            let m = choose|m: int| 0 <= m < ex.len() && ex[m] == j as usize;
            assert(jh[rc.len() + m] == n);
            lemma_index_of_distinct(jh, rc.len() + m);
            assert(u[rc.len() + m] == b[j]);
        }
    }
    assert(x =~= y);
}

/// Every tuple of the join of `r` and `s`, read by column name, is a tuple
/// of the join of `s` and `r` read by column name.
proof fn lemma_join_commutes_one_way(r: Relation, s: Relation)
    requires
        r.wf(),
        s.wf(),
        r.heading().no_duplicates(),
        s.heading().no_duplicates(),
    ensures
        by_name_body(join_body(r.body(), s.body(), r.heading(), s.heading()), join_heading(r.heading(), s.heading())).subset_of(
            by_name_body(join_body(s.body(), r.body(), s.heading(), r.heading()), join_heading(s.heading(), r.heading())),
        ),
{
    r.lemma_wf();
    s.lemma_wf();
    let rc = r.heading();
    let sc = s.heading();
    let j1 = join_body(r.body(), s.body(), rc, sc);
    let j2 = join_body(s.body(), r.body(), sc, rc);
    let h1 = join_heading(rc, sc);
    let h2 = join_heading(sc, rc);
    assert forall|x: Map<Seq<char>, Atom>| #[trigger] by_name_body(j1, h1).contains(x) implies by_name_body(j2, h2).contains(x) by {
        let u = choose|u: Seq<Atom>| j1.contains(u) && x == by_name(u, h1);
        let (a, b) = choose|a: Seq<Atom>, b: Seq<Atom>|
            #[trigger] r.body().contains(a) && #[trigger] s.body().contains(b) && agree(a, b, rc, sc) && u == joined(a, b, rc, sc);
        lemma_agree_consistent(a, b, rc, sc);
        lemma_agree_consistent(b, a, sc, rc);
        assert(consistent(b, sc, a, rc));
        lemma_joined_by_name(a, b, rc, sc);
        lemma_joined_by_name(b, a, sc, rc);
        assert(merged(a, rc, b, sc) =~= merged(b, sc, a, rc));
        let v = joined(b, a, sc, rc);
        assert(j2.contains(v));
        assert(x == by_name(v, h2));
    }
}

/// The natural join of relations with distinct column names does not
/// depend on the order of its operands, up to the order of the columns:
/// both joins name the same columns, and read by column name they hold the
/// same tuples.
pub proof fn law_join_commutes(r: Relation, s: Relation)
    requires
        r.wf(),
        s.wf(),
        r.heading().no_duplicates(),
        s.heading().no_duplicates(),
    ensures
        join_heading(r.heading(), s.heading()).to_set() == join_heading(s.heading(), r.heading()).to_set(),
        by_name_body(join_body(r.body(), s.body(), r.heading(), s.heading()), join_heading(r.heading(), s.heading()))
            == by_name_body(join_body(s.body(), r.body(), s.heading(), r.heading()), join_heading(s.heading(), r.heading())),
{
    r.lemma_wf();
    s.lemma_wf();
    lemma_join_heading_props(r.heading(), s.heading());
    lemma_join_heading_props(s.heading(), r.heading());
    assert(join_heading(r.heading(), s.heading()).to_set() =~= join_heading(s.heading(), r.heading()).to_set());
    lemma_join_commutes_one_way(r, s);
    lemma_join_commutes_one_way(s, r);
    assert(by_name_body(join_body(r.body(), s.body(), r.heading(), s.heading()), join_heading(r.heading(), s.heading()))
        =~= by_name_body(join_body(s.body(), r.body(), s.heading(), r.heading()), join_heading(s.heading(), r.heading())));
}

} // verus!
