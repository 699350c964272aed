//! Natural join (2.1.3) and composition (2.1.4).
use vstd::prelude::*;
use crate::value::Atom;
use crate::order::{text_equal, tuples_equal};
use crate::tuple_set::{copy_tuple, Tuple, TupleSet};
use crate::relation::{
    all_below, copy_names, pick, project_body, project_tuple, projection, uniform_arity, Relation,
};

verus! {

/// The first column of `sc` at position `from` or later that is named
/// `name` and not among `used`.
pub open spec fn first_match(name: Seq<char>, sc: Seq<Seq<char>>, used: Seq<usize>, from: int) -> Option<usize>
    decreases sc.len() - from,
{
    if from < 0 || from >= sc.len() {
        None
    } else if sc[from] == name && !used.contains(from as usize) {
        Some(from as usize)
    } else {
        first_match(name, sc, used, from + 1)
    }
}

/// The pairs of columns on which a join of headings `rc` and `sc` matches,
/// for the first `k` columns of `rc`: each of them is paired with the first
/// column of `sc` of the same name that no earlier column took. The result
/// lists the positions in `rc` and, in the same order, those in `sc`.
pub open spec fn common_columns(rc: Seq<Seq<char>>, sc: Seq<Seq<char>>, k: nat) -> (Seq<usize>, Seq<usize>)
    decreases k,
{
    if k == 0 {
        (Seq::empty(), Seq::empty())
    } else {
        let prev = common_columns(rc, sc, (k - 1) as nat);
        match first_match(rc[k - 1], sc, prev.1, 0) {
            Some(j) => (prev.0.push((k - 1) as usize), prev.1.push(j)),
            None => prev,
        }
    }
}

/// The positions in `rc` of the joining columns.
pub open spec fn r_common(rc: Seq<Seq<char>>, sc: Seq<Seq<char>>) -> Seq<usize> {
    common_columns(rc, sc, rc.len()).0
}

/// The positions in `sc` of the joining columns, paired in order with
/// [`r_common`].
pub open spec fn s_common(rc: Seq<Seq<char>>, sc: Seq<Seq<char>>) -> Seq<usize> {
    common_columns(rc, sc, rc.len()).1
}

/// The positions below `n` that are not in `used`, in increasing order.
pub open spec fn unused_below(n: nat, used: Seq<usize>) -> Seq<usize>
    decreases n,
{
    if n == 0 {
        Seq::empty()
    } else {
        let prev = unused_below((n - 1) as nat, used);
        if used.contains((n - 1) as usize) {
            prev
        } else {
            prev.push((n - 1) as usize)
        }
    }
}

/// The positions in `sc` of the columns that are not joining columns.
pub open spec fn s_extra(rc: Seq<Seq<char>>, sc: Seq<Seq<char>>) -> Seq<usize> {
    unused_below(sc.len(), s_common(rc, sc))
}

/// The heading of a natural join: all columns of `rc`, then the
/// non-joining columns of `sc`.
pub open spec fn join_heading(rc: Seq<Seq<char>>, sc: Seq<Seq<char>>) -> Seq<Seq<char>> {
    rc + pick(sc, s_extra(rc, sc))
}

/// Tuples `a` (under `rc`) and `b` (under `sc`) agree on the joining
/// columns.
pub open spec fn agree(a: Seq<Atom>, b: Seq<Atom>, rc: Seq<Seq<char>>, sc: Seq<Seq<char>>) -> bool {
    pick(a, r_common(rc, sc)) == pick(b, s_common(rc, sc))
}

/// The tuple that joins `a` with `b`: `a`, then the values of `b` in the
/// non-joining columns.
pub open spec fn joined(a: Seq<Atom>, b: Seq<Atom>, rc: Seq<Seq<char>>, sc: Seq<Seq<char>>) -> Seq<Atom> {
    a + pick(b, s_extra(rc, sc))
}

/// The body of a natural join.
pub open spec fn join_body(
    r_body: Set<Seq<Atom>>,
    s_body: Set<Seq<Atom>>,
    rc: Seq<Seq<char>>,
    sc: Seq<Seq<char>>,
) -> Set<Seq<Atom>> {
    Set::new(|t: Seq<Atom>| exists|a: Seq<Atom>, b: Seq<Atom>|
        #[trigger] r_body.contains(a) && #[trigger] s_body.contains(b) && agree(a, b, rc, sc) && t == joined(a, b, rc, sc))
}

pub(crate) proof fn lemma_first_match_bound(name: Seq<char>, sc: Seq<Seq<char>>, used: Seq<usize>, from: int)
    requires
        sc.len() <= usize::MAX,
    ensures
        first_match(name, sc, used, from) matches Some(j) ==> from <= j < sc.len() && sc[j as int] == name && !used.contains(j),
    decreases sc.len() - from,
{
    if 0 <= from < sc.len() {
        lemma_first_match_bound(name, sc, used, from + 1);
    }
}

proof fn lemma_common_columns_bound(rc: Seq<Seq<char>>, sc: Seq<Seq<char>>, k: nat)
    requires
        sc.len() <= usize::MAX,
        k <= rc.len() <= usize::MAX,
    ensures
        common_columns(rc, sc, k).0.len() == common_columns(rc, sc, k).1.len(),
        all_below(common_columns(rc, sc, k).0, k),
        all_below(common_columns(rc, sc, k).1, sc.len()),
    decreases k,
{
    if k > 0 {
        let prev = common_columns(rc, sc, (k - 1) as nat);
        lemma_common_columns_bound(rc, sc, (k - 1) as nat);
        lemma_first_match_bound(rc[k - 1], sc, prev.1, 0);
    }
}

proof fn lemma_unused_below_bound(n: nat, used: Seq<usize>)
    requires
        n <= usize::MAX,
    ensures
        all_below(unused_below(n, used), n),
    decreases n,
{
    if n > 0 {
        lemma_unused_below_bound((n - 1) as nat, used);
    }
}

/// The joining and extra positions lie within their headings.
pub proof fn lemma_join_positions(rc: Seq<Seq<char>>, sc: Seq<Seq<char>>)
    requires
        rc.len() <= usize::MAX,
        sc.len() <= usize::MAX,
    ensures
        r_common(rc, sc).len() == s_common(rc, sc).len(),
        all_below(r_common(rc, sc), rc.len()),
        all_below(s_common(rc, sc), sc.len()),
        all_below(s_extra(rc, sc), sc.len()),
{
    lemma_common_columns_bound(rc, sc, rc.len());
    lemma_unused_below_bound(sc.len(), s_common(rc, sc));
}

/// Whether `x` is among `v`.
fn contains_index(v: &Vec<usize>, x: usize) -> (b: bool)
    ensures
        b == v@.contains(x),
{
    let mut i: usize = 0;
    while i < v.len()
        invariant
            i <= v.len(),
            forall|k: int| 0 <= k < i ==> v@[k] != x,
        decreases v.len() - i,
    {
        if v[i] == x {
            assert(v@[i as int] == x);
            return true;
        }
        i = i + 1;
    }
    false
}

/// The first column of `sc` named `name` that is not among `used`.
fn find_match(name: &String, sc: &Vec<String>, used: &Vec<usize>) -> (m: Option<usize>)
    ensures
        m == first_match(name@, sc.deep_view(), used@, 0),
{
    let ghost scv = sc.deep_view();
    let mut si: usize = 0;
    while si < sc.len()
        invariant
            si <= sc.len(),
            scv == sc.deep_view(),
            first_match(name@, scv, used@, 0) == first_match(name@, scv, used@, si as int),
        decreases sc.len() - si,
    {
        if text_equal(sc[si].as_str(), name.as_str()) && !contains_index(used, si) {
            return Some(si);
        }
        si = si + 1;
    }
    None
}

/// `a` followed by the values of `b` at the positions `extra`.
fn merge(a: &Tuple, b: &Tuple, extra: &Vec<usize>) -> (m: Tuple)
    requires
        all_below(extra@, b.len() as nat),
    ensures
        m.deep_view() == a.deep_view() + pick(b.deep_view(), extra@),
{
    let mut m = copy_tuple(a);
    let tail = project_tuple(b, extra.as_slice());
    let mut k: usize = 0;
    let ghost target = a.deep_view() + pick(b.deep_view(), extra@);
    while k < tail.len()
        invariant
            k <= tail.len(),
            tail.deep_view() == pick(b.deep_view(), extra@),
            target == a.deep_view() + pick(b.deep_view(), extra@),
            m.deep_view() == target.take(a.deep_view().len() + k),
        decreases tail.len() - k,
    {
        let ghost prev = m@;
        let ghost prev_dv = m.deep_view();
        assert(prev_dv.len() == a.deep_view().len() + k);
        m.push(tail[k].duplicate());
        assert forall|j: int| 0 <= j < a.deep_view().len() + k + 1 implies #[trigger] m.deep_view()[j] == target[j] by {
            if j < a.deep_view().len() + k {
                assert(m@[j] == prev[j]);
                assert(prev_dv[j] == target[j]);
            }
        }
        assert(m.deep_view() =~= target.take(a.deep_view().len() + k + 1));
        k = k + 1;
    }
    assert(target.take(a.deep_view().len() + k) =~= target);
    m
}

/// The joined tuples from the first `i` tuples of `ri` with all of `si`,
/// and from tuple `i` of `ri` with the first `j` of `si`.
spec fn join_upto(
    ri: Seq<Seq<Atom>>,
    si: Seq<Seq<Atom>>,
    rc: Seq<Seq<char>>,
    sc: Seq<Seq<char>>,
    i: int,
    j: int,
) -> Set<Seq<Atom>> {
    Set::new(|t: Seq<Atom>| exists|k: int, m: int|
        ((0 <= k < i && 0 <= m < si.len()) || (k == i && 0 <= m < j))
            && agree(#[trigger] ri[k], #[trigger] si[m], rc, sc) && t == joined(ri[k], si[m], rc, sc))
}

proof fn lemma_join_upto_step(
    ri: Seq<Seq<Atom>>,
    si: Seq<Seq<Atom>>,
    rc: Seq<Seq<char>>,
    sc: Seq<Seq<char>>,
    i: int,
    j: int,
)
    requires
        0 <= i < ri.len(),
        0 <= j < si.len(),
    ensures
        join_upto(ri, si, rc, sc, i, j + 1) == (if agree(ri[i], si[j], rc, sc) {
            join_upto(ri, si, rc, sc, i, j).insert(joined(ri[i], si[j], rc, sc))
        } else {
            join_upto(ri, si, rc, sc, i, j)
        }),
{
    let next = join_upto(ri, si, rc, sc, i, j + 1);
    let prev = join_upto(ri, si, rc, sc, i, j);
    let rhs = if agree(ri[i], si[j], rc, sc) { prev.insert(joined(ri[i], si[j], rc, sc)) } else { prev };
    assert forall|t: Seq<Atom>| #[trigger] next.contains(t) implies rhs.contains(t) by {
        let (k, m) = choose|k: int, m: int|
            ((0 <= k < i && 0 <= m < si.len()) || (k == i && 0 <= m < j + 1))
                && agree(#[trigger] ri[k], #[trigger] si[m], rc, sc) && t == joined(ri[k], si[m], rc, sc);
        if !(k == i && m == j) {
            assert(prev.contains(t));
        }
    }
    assert forall|t: Seq<Atom>| #[trigger] rhs.contains(t) implies next.contains(t) by {
        if prev.contains(t) {
            let (k, m) = choose|k: int, m: int|
                ((0 <= k < i && 0 <= m < si.len()) || (k == i && 0 <= m < j))
                    && agree(#[trigger] ri[k], #[trigger] si[m], rc, sc) && t == joined(ri[k], si[m], rc, sc);
            assert(((0 <= k < i && 0 <= m < si.len()) || (k == i && 0 <= m < j + 1))
                && agree(ri[k], si[m], rc, sc) && t == joined(ri[k], si[m], rc, sc));
        } else {
            assert(agree(ri[i], si[j], rc, sc) && t == joined(ri[i], si[j], rc, sc));
        }
    }
    assert(next =~= rhs);
}

proof fn lemma_join_upto_row(
    ri: Seq<Seq<Atom>>,
    si: Seq<Seq<Atom>>,
    rc: Seq<Seq<char>>,
    sc: Seq<Seq<char>>,
    i: int,
)
    requires
        0 <= i,
    ensures
        join_upto(ri, si, rc, sc, i, si.len() as int) == join_upto(ri, si, rc, sc, i + 1, 0),
{
    let x = join_upto(ri, si, rc, sc, i, si.len() as int);
    let y = join_upto(ri, si, rc, sc, i + 1, 0);
    assert forall|t: Seq<Atom>| #[trigger] x.contains(t) implies y.contains(t) by {
        let (k, m) = choose|k: int, m: int|
            ((0 <= k < i && 0 <= m < si.len()) || (k == i && 0 <= m < si.len()))
                && agree(#[trigger] ri[k], #[trigger] si[m], rc, sc) && t == joined(ri[k], si[m], rc, sc);
        assert(((0 <= k < i + 1 && 0 <= m < si.len()) || (k == i + 1 && 0 <= m < 0))
            && agree(ri[k], si[m], rc, sc) && t == joined(ri[k], si[m], rc, sc));
    }
    assert forall|t: Seq<Atom>| #[trigger] y.contains(t) implies x.contains(t) by {
        let (k, m) = choose|k: int, m: int|
            ((0 <= k < i + 1 && 0 <= m < si.len()) || (k == i + 1 && 0 <= m < 0))
                && agree(#[trigger] ri[k], #[trigger] si[m], rc, sc) && t == joined(ri[k], si[m], rc, sc);
        assert(((0 <= k < i && 0 <= m < si.len()) || (k == i && 0 <= m < si.len()))
            && agree(ri[k], si[m], rc, sc) && t == joined(ri[k], si[m], rc, sc));
    }
    assert(x =~= y);
}

proof fn lemma_join_upto_all(
    ri: Seq<Seq<Atom>>,
    si: Seq<Seq<Atom>>,
    rc: Seq<Seq<char>>,
    sc: Seq<Seq<char>>,
)
    ensures
        join_upto(ri, si, rc, sc, ri.len() as int, 0) == join_body(ri.to_set(), si.to_set(), rc, sc),
{
    let x = join_upto(ri, si, rc, sc, ri.len() as int, 0);
    let y = join_body(ri.to_set(), si.to_set(), rc, sc);
    assert forall|t: Seq<Atom>| #[trigger] x.contains(t) implies y.contains(t) by {
        let (k, m) = choose|k: int, m: int|
            ((0 <= k < ri.len() && 0 <= m < si.len()) || (k == ri.len() && 0 <= m < 0))
                && agree(#[trigger] ri[k], #[trigger] si[m], rc, sc) && t == joined(ri[k], si[m], rc, sc);
        assert(ri.to_set().contains(ri[k]) && si.to_set().contains(si[m]));
    }
    assert forall|t: Seq<Atom>| #[trigger] y.contains(t) implies x.contains(t) by {
        let (a, b) = choose|a: Seq<Atom>, b: Seq<Atom>|
            #[trigger] ri.to_set().contains(a) && #[trigger] si.to_set().contains(b) && agree(a, b, rc, sc) && t == joined(a, b, rc, sc);
        let k = choose|k: int| 0 <= k < ri.len() && ri[k] == a;
        let m = choose|m: int| 0 <= m < si.len() && si[m] == b;
        assert(((0 <= k < ri.len() && 0 <= m < si.len()) || (k == ri.len() && 0 <= m < 0))
            && agree(ri[k], si[m], rc, sc) && t == joined(ri[k], si[m], rc, sc));
    }
    assert(x =~= y);
}

/// Natural join (2.1.3): joins `r` and `s` on all their commonly named
/// columns. Each column of `r`, in order, is matched with the first column
/// of `s` of the same name that no earlier column of `r` took; the result
/// has all columns of `r`, then the unmatched columns of `s` in their
/// order. With no columns in common, the result is the Cartesian product.
pub fn natural_join(r: &Relation, s: &Relation, name: &str) -> (j: Relation)
    ensures
        j.wf(),
        j.title() == name@,
        j.heading() == join_heading(r.heading(), s.heading()),
        j.body() == join_body(r.body(), s.body(), r.heading(), s.heading()),
{
    r.well_formed();
    s.well_formed();
    let ghost rc = r.heading();
    let ghost sc = s.heading();
    let r_cols = r.columns();
    let s_cols = s.columns();
    proof {
        assert(rc.len() == r_cols.len() && sc.len() == s_cols.len());
        lemma_join_positions(rc, sc);
    }
    // Pair the common columns.
    let mut r_com: Vec<usize> = Vec::new();
    let mut s_com: Vec<usize> = Vec::new();
    let mut ri: usize = 0;
    while ri < r_cols.len()
        invariant
            ri <= r_cols.len(),
            r_cols.deep_view() == rc,
            s_cols.deep_view() == sc,
            (r_com@, s_com@) == common_columns(rc, sc, ri as nat),
        decreases r_cols.len() - ri,
    {
        match find_match(&r_cols[ri], s_cols, &s_com) {
            Some(si) => {
                r_com.push(ri);
                s_com.push(si);
            },
            None => {},
        }
        ri = ri + 1;
    }
    assert(r_com@ == r_common(rc, sc) && s_com@ == s_common(rc, sc));
    // The columns of `s` that are not joining columns.
    let mut extra: Vec<usize> = Vec::new();
    let mut k: usize = 0;
    while k < s_cols.len()
        invariant
            k <= s_cols.len(),
            s_cols.deep_view() == sc,
            extra@ == unused_below(k as nat, s_com@),
        decreases s_cols.len() - k,
    {
        if !contains_index(&s_com, k) {
            extra.push(k);
        }
        k = k + 1;
    }
    assert(extra@ == s_extra(rc, sc));
    // The heading.
    let mut columns = copy_names(r_cols);
    let ghost heading = join_heading(rc, sc);
    let ghost tail = pick(sc, extra@);
    let mut k: usize = 0;
    while k < extra.len()
        invariant
            k <= extra.len(),
            s_cols.deep_view() == sc,
            extra@ == s_extra(rc, sc),
            all_below(extra@, sc.len()),
            heading == join_heading(rc, sc),
            tail == pick(sc, extra@),
            columns.deep_view() == rc + tail.take(k as int),
        decreases extra.len() - k,
    {
        let ghost prev = columns@;
        let ghost prev_dv = columns.deep_view();
        assert(prev_dv.len() == rc.len() + k);
        assert(extra@[k as int] < sc.len());
        columns.push(s_cols[extra[k]].clone());
        assert forall|j: int| 0 <= j < rc.len() + k + 1 implies #[trigger] columns.deep_view()[j] == (rc + tail.take(k + 1))[j] by {
            if j < rc.len() + k {
                assert(columns@[j] == prev[j]);
                assert(prev_dv[j] == (rc + tail.take(k as int))[j]);
            }
        }
        assert(columns.deep_view() =~= rc + tail.take(k + 1));
        k = k + 1;
    }
    assert(tail.take(k as int) =~= tail);
    // The body.
    let ghost r_items = r.listing();
    let ghost s_items = s.listing();
    let rt = r.tuples();
    let st = s.tuples();
    let mut out = TupleSet::new();
    let nr = rt.len();
    let ns = st.len();
    assert(out@ =~= join_upto(r_items, s_items, rc, sc, 0, 0));
    let mut i: usize = 0;
    while i < nr
        invariant
            i <= nr,
            nr == r_items.len(),
            ns == s_items.len(),
            r_items == rt.items(),
            s_items == st.items(),
            rt@ == r.body(),
            st@ == s.body(),
            rc == r.heading(),
            sc == s.heading(),
            uniform_arity(r.body(), rc.len()),
            uniform_arity(s.body(), sc.len()),
            r_items.to_set() == r.body(),
            s_items.to_set() == s.body(),
            r_com@ == r_common(rc, sc),
            s_com@ == s_common(rc, sc),
            extra@ == s_extra(rc, sc),
            all_below(r_com@, rc.len()),
            all_below(s_com@, sc.len()),
            all_below(extra@, sc.len()),
            out@ == join_upto(r_items, s_items, rc, sc, i as int, 0),
        decreases nr - i,
    {
        let a = rt.row(i);
        assert(r_items.to_set().contains(r_items[i as int]));
        let a_key = project_tuple(a, r_com.as_slice());
        let mut jj: usize = 0;
        while jj < ns
            invariant
                i < nr,
                jj <= ns,
                nr == r_items.len(),
                ns == s_items.len(),
                r_items == rt.items(),
                s_items == st.items(),
                a.deep_view() == r_items[i as int],
                a_key.deep_view() == pick(r_items[i as int], r_com@),
                uniform_arity(s.body(), sc.len()),
                s_items.to_set() == s.body(),
                r_com@ == r_common(rc, sc),
                s_com@ == s_common(rc, sc),
                extra@ == s_extra(rc, sc),
                all_below(s_com@, sc.len()),
                all_below(extra@, sc.len()),
                out@ == join_upto(r_items, s_items, rc, sc, i as int, jj as int),
            decreases ns - jj,
        {
            let b = st.row(jj);
            assert(s_items.to_set().contains(s_items[jj as int]));
            let b_key = project_tuple(b, s_com.as_slice());
            proof {
                lemma_join_upto_step(r_items, s_items, rc, sc, i as int, jj as int);
            }
            if tuples_equal(&a_key, &b_key) {
                let m = merge(a, b, &extra);
                out.insert(m);
            }
            jj = jj + 1;
        }
        proof {
            lemma_join_upto_row(r_items, s_items, rc, sc, i as int);
        }
        i = i + 1;
    }
    proof {
        lemma_join_upto_all(r_items, s_items, rc, sc);
        assert forall|t: Seq<Atom>| #[trigger] out@.contains(t) implies t.len() == heading.len() by {
            let (a, b) = choose|a: Seq<Atom>, b: Seq<Atom>|
                #[trigger] r.body().contains(a) && #[trigger] s.body().contains(b) && agree(a, b, rc, sc) && t == joined(a, b, rc, sc);
        }
    }
    Relation::from_parts(name, columns, out)
}

/// The first `k` names of `rc` that also name a column of `sc`, in order.
pub open spec fn shared_names(rc: Seq<Seq<char>>, sc: Seq<Seq<char>>, k: nat) -> Seq<Seq<char>>
    decreases k,
{
    if k == 0 {
        Seq::empty()
    } else {
        let prev = shared_names(rc, sc, (k - 1) as nat);
        if sc.contains(rc[k - 1]) {
            prev.push(rc[k - 1])
        } else {
            prev
        }
    }
}

/// The positions below `n` of the names in `heading` that are not among
/// `names`, in increasing order.
pub open spec fn positions_not_named(heading: Seq<Seq<char>>, names: Seq<Seq<char>>, n: nat) -> Seq<usize>
    decreases n,
{
    if n == 0 {
        Seq::empty()
    } else {
        let prev = positions_not_named(heading, names, (n - 1) as nat);
        if names.contains(heading[n - 1]) {
            prev
        } else {
            prev.push((n - 1) as usize)
        }
    }
}

/// The positions, in the heading of the natural join of `rc` and `sc`, of
/// the columns whose names are not shared by `rc` and `sc`.
pub open spec fn composition_positions(rc: Seq<Seq<char>>, sc: Seq<Seq<char>>) -> Seq<usize> {
    let jc = join_heading(rc, sc);
    positions_not_named(jc, shared_names(rc, sc, rc.len()), jc.len())
}

proof fn lemma_positions_not_named_bound(heading: Seq<Seq<char>>, names: Seq<Seq<char>>, n: nat)
    requires
        n <= usize::MAX,
    ensures
        all_below(positions_not_named(heading, names, n), n),
    decreases n,
{
    if n > 0 {
        lemma_positions_not_named_bound(heading, names, (n - 1) as nat);
    }
}

/// Whether `name` names one of `columns`.
fn has_name(columns: &Vec<String>, name: &String) -> (b: bool)
    ensures
        b == columns.deep_view().contains(name@),
{
    let ghost cv = columns.deep_view();
    let mut i: usize = 0;
    while i < columns.len()
        invariant
            i <= columns.len(),
            cv == columns.deep_view(),
            forall|k: int| 0 <= k < i ==> cv[k] != name@,
        decreases columns.len() - i,
    {
        if text_equal(columns[i].as_str(), name.as_str()) {
            assert(cv[i as int] == name@);
            return true;
        }
        i = i + 1;
    }
    false
}

/// Composition (2.1.4): the natural join of `r` and `s`, projected onto the
/// columns whose names `r` and `s` do not share.
pub fn composition(r: &Relation, s: &Relation, name: &str) -> (c: Relation)
    ensures
        c.wf(),
        c.title() == name@,
        c.heading() == pick(join_heading(r.heading(), s.heading()), composition_positions(r.heading(), s.heading())),
        c.body() == project_body(
            join_body(r.body(), s.body(), r.heading(), s.heading()),
            composition_positions(r.heading(), s.heading()),
        ),
{
    let join = natural_join(r, s, "_tmp_join");
    let ghost rc = r.heading();
    let ghost sc = s.heading();
    let r_cols = r.columns();
    let s_cols = s.columns();
    let mut common: Vec<String> = Vec::new();
    let mut i: usize = 0;
    while i < r_cols.len()
        invariant
            i <= r_cols.len(),
            r_cols.deep_view() == rc,
            s_cols.deep_view() == sc,
            common.deep_view() == shared_names(rc, sc, i as nat),
        decreases r_cols.len() - i,
    {
        if has_name(s_cols, &r_cols[i]) {
            let ghost prev = common@;
            let ghost prev_dv = common.deep_view();
            assert(prev_dv.len() == shared_names(rc, sc, i as nat).len());
            common.push(r_cols[i].clone());
            assert forall|k: int| 0 <= k < common.deep_view().len() implies #[trigger] common.deep_view()[k] == shared_names(rc, sc, (i + 1) as nat)[k] by {
                if k < prev.len() {
                    assert(common@[k] == prev[k]);
                    assert(prev_dv[k] == shared_names(rc, sc, i as nat)[k]);
                }
            }
            assert(common.deep_view() =~= shared_names(rc, sc, (i + 1) as nat));
        }
        i = i + 1;
    }
    let j_cols = join.columns();
    let ghost jc = join.heading();
    let mut keep: Vec<usize> = Vec::new();
    let mut k: usize = 0;
    while k < j_cols.len()
        invariant
            k <= j_cols.len(),
            j_cols.deep_view() == jc,
            common.deep_view() == shared_names(rc, sc, rc.len()),
            keep@ == positions_not_named(jc, common.deep_view(), k as nat),
        decreases j_cols.len() - k,
    {
        if !has_name(&common, &j_cols[k]) {
            keep.push(k);
        }
        k = k + 1;
    }
    proof {
        lemma_positions_not_named_bound(jc, common.deep_view(), jc.len());
    }
    projection(&join, keep.as_slice(), name)
}

} // verus!
