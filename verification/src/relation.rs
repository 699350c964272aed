//! Relations: a name, a heading of column names, and a body that is a set
//! of tuples, each with one value per column.
use vstd::prelude::*;
use crate::value::{Atom, Value};
use crate::order::text_equal;
use crate::tuple_set::{copy_tuple, Tuple, TupleSet};

verus! {

/// The elements of `s` at the positions `idx`, in the order of `idx`.
pub open spec fn pick<A>(s: Seq<A>, idx: Seq<usize>) -> Seq<A> {
    Seq::new(idx.len(), |k: int| s[idx[k] as int])
}

/// Every position in `idx` lies below `n`.
pub open spec fn all_below(idx: Seq<usize>, n: nat) -> bool {
    forall|k: int| 0 <= k < idx.len() ==> #[trigger] idx[k] < n
}

/// Every tuple of `body` has one value per column of a heading of `degree`
/// columns.
pub open spec fn uniform_arity(body: Set<Seq<Atom>>, degree: nat) -> bool {
    forall|t: Seq<Atom>| #[trigger] body.contains(t) ==> t.len() == degree
}

/// Cutting a tuple down to the columns `idx`, as a function value.
pub open spec fn projector(idx: Seq<usize>) -> spec_fn(Seq<Atom>) -> Seq<Atom> {
    |t: Seq<Atom>| pick(t, idx)
}

/// The tuples of `body` cut down to the columns `idx`.
pub open spec fn project_body(body: Set<Seq<Atom>>, idx: Seq<usize>) -> Set<Seq<Atom>> {
    body.map(projector(idx))
}

/// The image of the first `i` items of `items` under `f`.
pub open spec fn image_upto(items: Seq<Seq<Atom>>, f: spec_fn(Seq<Atom>) -> Seq<Atom>, i: int) -> Set<Seq<Atom>> {
    Set::new(|y: Seq<Atom>| exists|k: int| 0 <= k < i && y == f(items[k]))
}

proof fn lemma_image_upto_step(items: Seq<Seq<Atom>>, f: spec_fn(Seq<Atom>) -> Seq<Atom>, i: int)
    requires
        0 <= i < items.len(),
    ensures
        image_upto(items, f, i + 1) == image_upto(items, f, i).insert(f(items[i])),
{
    assert forall|y: Seq<Atom>| #[trigger] image_upto(items, f, i + 1).contains(y) implies
        image_upto(items, f, i).insert(f(items[i])).contains(y) by {
        let k = choose|k: int| 0 <= k < i + 1 && y == f(items[k]);
        if k < i {
            assert(image_upto(items, f, i).contains(y));
        }
    }
    assert forall|y: Seq<Atom>| #[trigger] image_upto(items, f, i).insert(f(items[i])).contains(y) implies
        image_upto(items, f, i + 1).contains(y) by {
        if y != f(items[i]) {
            let k = choose|k: int| 0 <= k < i && y == f(items[k]);
            assert(0 <= k < i + 1 && y == f(items[k]));
        }
    }
    assert(image_upto(items, f, i + 1) =~= image_upto(items, f, i).insert(f(items[i])));
}

proof fn lemma_image_upto_all(items: Seq<Seq<Atom>>, f: spec_fn(Seq<Atom>) -> Seq<Atom>)
    ensures
        image_upto(items, f, items.len() as int) == items.to_set().map(f),
{
    assert forall|y: Seq<Atom>| #[trigger] image_upto(items, f, items.len() as int).contains(y) implies
        items.to_set().map(f).contains(y) by {
        let k = choose|k: int| 0 <= k < items.len() && y == f(items[k]);
        assert(items.to_set().contains(items[k]));
    }
    assert forall|y: Seq<Atom>| #[trigger] items.to_set().map(f).contains(y) implies
        image_upto(items, f, items.len() as int).contains(y) by {
        let x = choose|x: Seq<Atom>| items.to_set().contains(x) && y == f(x);
        let k = choose|k: int| 0 <= k < items.len() && items[k] == x;
        assert(0 <= k < items.len() && y == f(items[k]));
    }
    assert(image_upto(items, f, items.len() as int) =~= items.to_set().map(f));
}

/// A relation: a named set of tuples with named columns. As Codd defines
/// it, no two tuples are equal and the order of the columns matters.
pub struct Relation {
    name: String,
    columns: Vec<String>,
    tuples: TupleSet,
}

impl Relation {
    /// The relation's name.
    pub closed spec fn title(&self) -> Seq<char> {
        self.name@
    }

    /// The column names, in order.
    pub closed spec fn heading(&self) -> Seq<Seq<char>> {
        self.columns.deep_view()
    }

    /// The set of tuples.
    pub closed spec fn body(&self) -> Set<Seq<Atom>> {
        self.tuples@
    }

    /// The tuples in the order in which the relation lists them.
    pub closed spec fn listing(&self) -> Seq<Seq<Atom>> {
        self.tuples.items()
    }

    /// Every tuple has exactly one value per column.
    #[verifier::type_invariant]
    pub closed spec fn wf(&self) -> bool {
        &&& uniform_arity(self.tuples@, self.columns.deep_view().len())
        &&& self.columns.deep_view().len() <= usize::MAX
    }

    /// What well-formedness says of the heading and the body.
    pub proof fn lemma_wf(&self)
        requires
            self.wf(),
        ensures
            uniform_arity(self.body(), self.heading().len()),
            self.heading().len() <= usize::MAX,
            self.body().finite(),
    {
        vstd::seq_lib::seq_to_set_is_finite(self.tuples.items());
    }

    /// The relation is well formed, and its listing holds exactly the body
    /// in increasing order.
    pub fn well_formed(&self)
        ensures
            self.wf(),
            uniform_arity(self.body(), self.heading().len()),
            self.heading().len() <= usize::MAX,
            self.body() == self.listing().to_set(),
            crate::tuple_set::strictly_increasing(self.listing()),
    {
        proof {
            use_type_invariant(self);
        }
        self.tuples.ordered();
    }

    /// A relation with the given parts.
    pub(crate) fn from_parts(name: &str, columns: Vec<String>, tuples: TupleSet) -> (r: Relation)
        requires
            uniform_arity(tuples@, columns.deep_view().len()),
        ensures
            r.wf(),
            r.title() == name@,
            r.heading() == columns.deep_view(),
            r.body() == tuples@,
            r.listing() == tuples.items(),
    {
        let degree = columns.len();
        assert(degree == columns.deep_view().len());
        Relation { name: name.to_owned(), columns, tuples }
    }

    /// The relation's name.
    pub fn name(&self) -> (s: &str)
        ensures
            s@ == self.title(),
    {
        self.name.as_str()
    }

    /// The column names.
    pub fn columns(&self) -> (c: &Vec<String>)
        ensures
            c.deep_view() == self.heading(),
    {
        &self.columns
    }

    /// The number of columns.
    pub fn degree(&self) -> (n: usize)
        ensures
            n == self.heading().len(),
    {
        self.columns.len()
    }

    /// The set of tuples.
    pub fn tuples(&self) -> (t: &TupleSet)
        ensures
            t@ == self.body(),
            t.items() == self.listing(),
    {
        &self.tuples
    }

    /// The number of tuples.
    pub fn cardinality(&self) -> (n: usize)
        ensures
            n == self.body().len(),
            n == self.listing().len(),
    {
        self.tuples.len()
    }
}

/// Copies of the given column names.
pub(crate) fn copy_names(names: &Vec<String>) -> (c: Vec<String>)
    ensures
        c.deep_view() == names.deep_view(),
{
    let mut c: Vec<String> = Vec::new();
    let mut i: usize = 0;
    while i < names.len()
        invariant
            i <= names.len(),
            c.deep_view() == names.deep_view().take(i as int),
        decreases names.len() - i,
    {
        let ghost prev = c@;
        let ghost prev_dv = c.deep_view();
        assert(prev_dv.len() == i);
        c.push(names[i].clone());
        assert forall|k: int| 0 <= k < i + 1 implies #[trigger] c.deep_view()[k] == names.deep_view()[k] by {
            if k < i {
                assert(c@[k] == prev[k]);
                assert(prev_dv[k] == names.deep_view()[k]);
            }
        }
        assert(c.deep_view() =~= names.deep_view().take(i + 1));
        i = i + 1;
    }
    assert(names.deep_view().take(i as int) =~= names.deep_view());
    c
}

/// Whether no two of the given column names are equal.
pub fn distinct_names(columns: &[&str]) -> (b: bool)
    ensures
        b == columns.deep_view().no_duplicates(),
{
    let ghost cv = columns.deep_view();
    let mut i: usize = 0;
    while i < columns.len()
        invariant
            i <= columns.len(),
            cv == columns.deep_view(),
            forall|a: int, b: int| 0 <= a < b < cv.len() && a < i ==> cv[a] != cv[b],
        decreases columns.len() - i,
    {
        let mut j: usize = i + 1;
        while j < columns.len()
            invariant
                i < j <= columns.len(),
                i < columns.len(),
                cv == columns.deep_view(),
                forall|a: int, b: int| 0 <= a < b < cv.len() && a < i ==> cv[a] != cv[b],
                forall|b: int| i < b < j ==> cv[i as int] != cv[b],
            decreases columns.len() - j,
        {
            if text_equal(columns[i], columns[j]) {
                assert(cv[i as int] == cv[j as int]);
                return false;
            }
            j = j + 1;
        }
        i = i + 1;
    }
    true
}

/// Builds a relation from its column names and its rows; a row given twice
/// is kept once.
pub fn relation(name: &str, columns: &[&str], rows: Vec<Tuple>) -> (r: Relation)
    requires
        columns.deep_view().no_duplicates(),
        forall|k: int| 0 <= k < rows.len() ==> #[trigger] rows@[k].len() == columns.len(),
    ensures
        r.wf(),
        r.title() == name@,
        r.heading() == columns.deep_view(),
        r.body() == rows.deep_view().to_set(),
{
    let mut names: Vec<String> = Vec::new();
    let mut i: usize = 0;
    while i < columns.len()
        invariant
            i <= columns.len(),
            names.deep_view() == columns.deep_view().take(i as int),
        decreases columns.len() - i,
    {
        let ghost prev = names@;
        let ghost prev_dv = names.deep_view();
        assert(prev_dv.len() == i);
        names.push(columns[i].to_owned());
        assert forall|k: int| 0 <= k < i + 1 implies #[trigger] names.deep_view()[k] == columns.deep_view()[k] by {
            if k < i {
                assert(names@[k] == prev[k]);
                assert(prev_dv[k] == columns.deep_view()[k]);
            }
        }
        assert(names.deep_view() =~= columns.deep_view().take(i + 1));
        i = i + 1;
    }
    assert(columns.deep_view().take(i as int) =~= columns.deep_view());
    let ghost rv = rows.deep_view();
    assert forall|t: Seq<Atom>| rv.to_set().contains(t) implies t.len() == columns.len() by {
        let k = choose|k: int| 0 <= k < rv.len() && rv[k] == t;
        assert(rows@[k].len() == columns.len());
    }
    let tuples = TupleSet::from_rows(rows);
    Relation::from_parts(name, names, tuples)
}

/// The values of `t` at the positions `idx`, in the order of `idx`.
pub fn project_tuple(t: &Tuple, idx: &[usize]) -> (p: Tuple)
    requires
        all_below(idx@, t.len() as nat),
    ensures
        p.deep_view() == pick(t.deep_view(), idx@),
{
    let mut p: Tuple = Vec::new();
    let mut k: usize = 0;
    while k < idx.len()
        invariant
            k <= idx.len(),
            all_below(idx@, t.len() as nat),
            p.deep_view() == pick(t.deep_view(), idx@).take(k as int),
        decreases idx.len() - k,
    {
        let ghost prev = p@;
        let ghost prev_dv = p.deep_view();
        assert(prev_dv.len() == k);
        assert(idx@[k as int] < t.len());
        p.push(t[idx[k]].duplicate());
        assert forall|j: int| 0 <= j < k + 1 implies #[trigger] p.deep_view()[j] == pick(t.deep_view(), idx@)[j] by {
            if j < k {
                assert(p@[j] == prev[j]);
                assert(prev_dv[j] == pick(t.deep_view(), idx@)[j]);
            }
        }
        assert(p.deep_view() =~= pick(t.deep_view(), idx@).take(k + 1));
        k = k + 1;
    }
    assert(pick(t.deep_view(), idx@).take(k as int) =~= pick(t.deep_view(), idx@));
    p
}

/// Whether every position in `idx` lies below `n`.
pub fn indices_below(idx: &[usize], n: usize) -> (b: bool)
    ensures
        b == all_below(idx@, n as nat),
{
    let mut k: usize = 0;
    while k < idx.len()
        invariant
            k <= idx.len(),
            forall|j: int| 0 <= j < k ==> idx@[j] < n,
        decreases idx.len() - k,
    {
        if idx[k] >= n {
            return false;
        }
        k = k + 1;
    }
    true
}

/// The tuples of `ts` cut down to the columns `idx`.
fn project_tuples(ts: &TupleSet, idx: &[usize], Ghost(degree): Ghost<nat>) -> (out: TupleSet)
    requires
        uniform_arity(ts@, degree),
        all_below(idx@, degree),
    ensures
        out@ == project_body(ts@, idx@),
{
    let ghost items = ts.items();
    let ghost f = projector(idx@);
    let mut out = TupleSet::new();
    let mut i: usize = 0;
    let n = ts.len();
    while i < n
        invariant
            i <= n,
            n == items.len(),
            items == ts.items(),
            f == projector(idx@),
            uniform_arity(ts@, degree),
            all_below(idx@, degree),
            out@ == image_upto(items, f, i as int),
        decreases n - i,
    {
        let row = ts.row(i);
        proof {
            assert(ts@.contains(items[i as int]));
        }
        let t = project_tuple(row, idx);
        proof {
            lemma_image_upto_step(items, f, i as int);
        }
        out.insert(t);
        i = i + 1;
    }
    proof {
        lemma_image_upto_all(items, f);
    }
    out
}

/// Projection (2.1.2): the columns at `indices`, in that order; tuples that
/// become equal are kept once.
pub fn projection(r: &Relation, indices: &[usize], name: &str) -> (p: Relation)
    requires
        all_below(indices@, r.heading().len()),
    ensures
        p.wf(),
        p.title() == name@,
        p.heading() == pick(r.heading(), indices@),
        p.body() == project_body(r.body(), indices@),
{
    proof {
        use_type_invariant(r);
    }
    let out = project_tuples(&r.tuples, indices, Ghost(r.heading().len()));
    let ghost f = projector(indices@);
    let mut columns: Vec<String> = Vec::new();
    let mut k: usize = 0;
    while k < indices.len()
        invariant
            k <= indices.len(),
            all_below(indices@, r.heading().len()),
            r.heading() == r.columns.deep_view(),
            columns.deep_view() == pick(r.heading(), indices@).take(k as int),
        decreases indices.len() - k,
    {
        let ghost prev = columns@;
        let ghost prev_dv = columns.deep_view();
        assert(prev_dv.len() == k);
        assert(indices@[k as int] < r.heading().len());
        columns.push(r.columns[indices[k]].clone());
        assert forall|j: int| 0 <= j < k + 1 implies #[trigger] columns.deep_view()[j] == pick(r.heading(), indices@)[j] by {
            if j < k {
                assert(columns@[j] == prev[j]);
                assert(prev_dv[j] == pick(r.heading(), indices@)[j]);
            }
        }
        assert(columns.deep_view() =~= pick(r.heading(), indices@).take(k + 1));
        k = k + 1;
    }
    assert(pick(r.heading(), indices@).take(k as int) =~= pick(r.heading(), indices@));
    assert forall|t: Seq<Atom>| #[trigger] out@.contains(t) implies t.len() == indices.len() by {
        let x = choose|x: Seq<Atom>| r.body().contains(x) && t == f(x);
    }
    Relation::from_parts(name, columns, out)
}

/// `order` lists each of `0..n` exactly once.
pub open spec fn is_permutation(order: Seq<usize>, n: nat) -> bool {
    &&& order.len() == n
    &&& all_below(order, n)
    &&& order.no_duplicates()
}

/// Whether `order` lists each of `0..n` exactly once.
pub fn valid_permutation(order: &[usize], n: usize) -> (b: bool)
    ensures
        b == is_permutation(order@, n as nat),
{
    if order.len() != n || !indices_below(order, n) {
        return false;
    }
    let mut seen: Vec<bool> = Vec::new();
    let mut v: usize = 0;
    while v < n
        invariant
            v <= n,
            seen@.len() == v,
            forall|j: int| 0 <= j < v ==> !seen@[j],
        decreases n - v,
    {
        seen.push(false);
        v = v + 1;
    }
    let mut k: usize = 0;
    while k < order.len()
        invariant
            k <= order.len(),
            order.len() == n,
            seen@.len() == n,
            all_below(order@, n as nat),
            forall|x: int| 0 <= x < n ==> (seen@[x] <==> exists|j: int| 0 <= j < k && order@[j] == x),
            forall|a: int, b: int| 0 <= a < b < k ==> order@[a] != order@[b],
        decreases order.len() - k,
    {
        let x = order[k];
        assert(x < n);
        if seen[x] {
            let ghost j = choose|j: int| 0 <= j < k && order@[j] == x;
            assert(order@[j] == order@[k as int]);
            return false;
        }
        seen.set(x, true);
        assert forall|y: int| 0 <= y < n implies (seen@[y] <==> exists|j: int| 0 <= j < k + 1 && order@[j] == y) by {
            if y == x {
                assert(order@[k as int] == y);
            }
        }
        k = k + 1;
    }
    true
}

/// Permutation (2.1.1): all columns, reordered by `new_order`.
pub fn permutation(r: &Relation, new_order: &[usize], name: &str) -> (p: Relation)
    requires
        is_permutation(new_order@, r.heading().len()),
    ensures
        p.wf(),
        p.title() == name@,
        p.heading() == pick(r.heading(), new_order@),
        p.body() == project_body(r.body(), new_order@),
{
    projection(r, new_order, name)
}

/// `t` agrees on the columns `r_cols` with some tuple of `s_body` on its
/// columns `s_cols`.
pub open spec fn has_partner(t: Seq<Atom>, s_body: Set<Seq<Atom>>, r_cols: Seq<usize>, s_cols: Seq<usize>) -> bool {
    exists|b: Seq<Atom>| #[trigger] s_body.contains(b) && pick(b, s_cols) == pick(t, r_cols)
}

/// The tuples of `r_body` that agree on `r_cols` with some tuple of `s_body`
/// on `s_cols`.
pub open spec fn restrict_body(
    r_body: Set<Seq<Atom>>,
    s_body: Set<Seq<Atom>>,
    r_cols: Seq<usize>,
    s_cols: Seq<usize>,
) -> Set<Seq<Atom>> {
    Set::new(|t: Seq<Atom>| r_body.contains(t) && has_partner(t, s_body, r_cols, s_cols))
}

/// Restriction (2.1.5): the tuples of `r` whose values at `r_cols` equal
/// the values at `s_cols` of some tuple of `s`.
pub fn restriction(r: &Relation, s: &Relation, r_cols: &[usize], s_cols: &[usize], name: &str) -> (p: Relation)
    requires
        r_cols.len() == s_cols.len(),
        all_below(r_cols@, r.heading().len()),
        all_below(s_cols@, s.heading().len()),
    ensures
        p.wf(),
        p.title() == name@,
        p.heading() == r.heading(),
        p.body() == restrict_body(r.body(), s.body(), r_cols@, s_cols@),
{
    proof {
        use_type_invariant(r);
        use_type_invariant(s);
    }
    let s_keys = project_tuples(&s.tuples, s_cols, Ghost(s.heading().len()));
    let ghost items = r.tuples.items();
    let ghost target = restrict_body(r.body(), s.body(), r_cols@, s_cols@);
    let mut out = TupleSet::new();
    let mut i: usize = 0;
    let n = r.tuples.len();
    while i < n
        invariant
            i <= n,
            n == items.len(),
            items == r.tuples.items(),
            r.wf(),
            all_below(r_cols@, r.heading().len()),
            s_keys@ == project_body(s.body(), s_cols@),
            out@ == Set::new(|t: Seq<Atom>| exists|k: int| 0 <= k < i && t == items[k] && has_partner(t, s.body(), r_cols@, s_cols@)),
        decreases n - i,
    {
        let row = r.tuples.row(i);
        proof {
            assert(r.tuples@.contains(items[i as int]));
        }
        let key = project_tuple(row, r_cols);
        let keep = s_keys.contains(&key);
        let ghost before = out@;
        let ghost t_i = items[i as int];
        if keep {
            let c = copy_tuple(row);
            out.insert(c);
        }
        proof {
            assert(keep == has_partner(t_i, s.body(), r_cols@, s_cols@)) by {
                if keep {
                    let b = choose|b: Seq<Atom>| s.body().contains(b) && pick(t_i, r_cols@) == projector(s_cols@)(b);
                    assert(s.body().contains(b) && pick(b, s_cols@) == pick(t_i, r_cols@));
                }
                if has_partner(t_i, s.body(), r_cols@, s_cols@) {
                    let b = choose|b: Seq<Atom>| #[trigger] s.body().contains(b) && pick(b, s_cols@) == pick(t_i, r_cols@);
                    assert(s.body().contains(b) && pick(t_i, r_cols@) == projector(s_cols@)(b));
                }
            }
            assert(out@ =~= Set::new(|t: Seq<Atom>| exists|k: int| 0 <= k < i + 1 && t == items[k] && has_partner(t, s.body(), r_cols@, s_cols@))) by {
                assert forall|t: Seq<Atom>| #[trigger] out@.contains(t) implies exists|k: int| 0 <= k < i + 1 && t == items[k] && has_partner(t, s.body(), r_cols@, s_cols@) by {
                    if t == t_i && keep {
                        assert(0 <= i < i + 1 && t == items[i as int]);
                    } else {
                        assert(before.contains(t));
                        let k = choose|k: int| 0 <= k < i && t == items[k] && has_partner(t, s.body(), r_cols@, s_cols@);
                        assert(0 <= k < i + 1 && t == items[k]);
                    }
                }
                assert forall|t: Seq<Atom>| (exists|k: int| 0 <= k < i + 1 && t == items[k] && has_partner(t, s.body(), r_cols@, s_cols@)) implies #[trigger] out@.contains(t) by {
                    let k = choose|k: int| 0 <= k < i + 1 && t == items[k] && has_partner(t, s.body(), r_cols@, s_cols@);
                    if k < i {
                        assert(before.contains(t));
                    }
                }
            }
        }
        i = i + 1;
    }
    proof {
        assert(out@ =~= target) by {
            assert forall|t: Seq<Atom>| #[trigger] out@.contains(t) implies target.contains(t) by {
                let k = choose|k: int| 0 <= k < n && t == items[k] && has_partner(t, s.body(), r_cols@, s_cols@);
                assert(items.to_set().contains(items[k]));
            }
            assert forall|t: Seq<Atom>| #[trigger] target.contains(t) implies out@.contains(t) by {
                let k = choose|k: int| 0 <= k < items.len() && items[k] == t;
                assert(0 <= k < n && t == items[k] && has_partner(t, s.body(), r_cols@, s_cols@));
            }
        }
    }
    let columns = copy_names(&r.columns);
    Relation::from_parts(name, columns, out)
}

} // verus!
