//! The order on values and tuples: the order in which a relation keeps its
//! tuples. Integers come before strings; integers are ordered by value,
//! strings by their UTF-8 bytes, and tuples lexicographically.
use vstd::prelude::*;
use vstd::utf8::*;
use crate::value::{Atom, Value};

verus! {

/// `lt` is a strict total order: irreflexive, transitive and total.
pub open spec fn strict_total_order<T>(lt: spec_fn(T, T) -> bool) -> bool {
    &&& forall|x: T| !#[trigger] lt(x, x)
    &&& forall|x: T, y: T, z: T| #[trigger] lt(x, y) && #[trigger] lt(y, z) ==> lt(x, z)
    &&& forall|x: T, y: T| x != y ==> #[trigger] lt(x, y) || #[trigger] lt(y, x)
}

/// Lexicographic comparison of `a` and `b` from position `i` on: the first
/// position where they differ decides by `lt`; a proper prefix comes first.
pub open spec fn lex_lt_from<T>(a: Seq<T>, b: Seq<T>, i: nat, lt: spec_fn(T, T) -> bool) -> bool
    decreases a.len() - i,
{
    if i >= a.len() {
        i < b.len()
    } else if i >= b.len() {
        false
    } else if a[i as int] == b[i as int] {
        lex_lt_from(a, b, i + 1, lt)
    } else {
        lt(a[i as int], b[i as int])
    }
}

/// Lexicographic order on sequences, built from the order `lt` on elements.
pub open spec fn lex_lt<T>(a: Seq<T>, b: Seq<T>, lt: spec_fn(T, T) -> bool) -> bool {
    lex_lt_from(a, b, 0, lt)
}

/// The order on bytes.
pub open spec fn byte_lt() -> spec_fn(u8, u8) -> bool {
    |x: u8, y: u8| x < y
}

/// The order on strings: byte-wise on their UTF-8 encodings.
pub open spec fn text_lt(s: Seq<char>, t: Seq<char>) -> bool {
    lex_lt(encode_utf8(s), encode_utf8(t), byte_lt())
}

/// The order on values: integers by value, then strings.
pub open spec fn atom_lt(x: Atom, y: Atom) -> bool {
    match (x, y) {
        (Atom::Int(m), Atom::Int(n)) => m < n,
        (Atom::Int(_), Atom::Text(_)) => true,
        (Atom::Text(_), Atom::Int(_)) => false,
        (Atom::Text(s), Atom::Text(t)) => text_lt(s, t),
    }
}

/// [`atom_lt`] as a function value.
pub open spec fn atom_order() -> spec_fn(Atom, Atom) -> bool {
    |x: Atom, y: Atom| atom_lt(x, y)
}

/// The order on tuples: lexicographic on their values.
pub open spec fn tuple_lt(a: Seq<Atom>, b: Seq<Atom>) -> bool {
    lex_lt(a, b, atom_order())
}

proof fn lemma_lex_irreflexive_from<T>(a: Seq<T>, i: nat, lt: spec_fn(T, T) -> bool)
    ensures
        !lex_lt_from(a, a, i, lt),
    decreases a.len() - i,
{
    if i < a.len() {
        lemma_lex_irreflexive_from(a, i + 1, lt);
    }
}

proof fn lemma_lex_transitive_from<T>(
    a: Seq<T>,
    b: Seq<T>,
    c: Seq<T>,
    i: nat,
    lt: spec_fn(T, T) -> bool,
)
    requires
        strict_total_order(lt),
        lex_lt_from(a, b, i, lt),
        lex_lt_from(b, c, i, lt),
    ensures
        lex_lt_from(a, c, i, lt),
    decreases a.len() - i,
{
    if i < a.len() && i < b.len() && i < c.len() {
        if a[i as int] == b[i as int] && b[i as int] == c[i as int] {
            lemma_lex_transitive_from(a, b, c, i + 1, lt);
        } else if a[i as int] != b[i as int] && b[i as int] != c[i as int] {
            assert(lt(a[i as int], b[i as int]) && lt(b[i as int], c[i as int]));
            if a[i as int] == c[i as int] {
                assert(lt(a[i as int], a[i as int]));
            }
        }
    }
}

proof fn lemma_lex_total_from<T>(a: Seq<T>, b: Seq<T>, i: nat, lt: spec_fn(T, T) -> bool)
    requires
        strict_total_order(lt),
        i <= a.len(),
        i <= b.len(),
        !lex_lt_from(a, b, i, lt),
        !lex_lt_from(b, a, i, lt),
    ensures
        a.skip(i as int) == b.skip(i as int),
    decreases a.len() - i,
{
    if i < a.len() {
        if a[i as int] == b[i as int] {
            lemma_lex_total_from(a, b, i + 1, lt);
            assert(a.skip(i as int) =~= seq![a[i as int]] + a.skip(i + 1int));
            assert(b.skip(i as int) =~= seq![b[i as int]] + b.skip(i + 1int));
        } else {
            assert(lt(a[i as int], b[i as int]) || lt(b[i as int], a[i as int]));
        }
    } else {
        assert(a.skip(i as int) =~= b.skip(i as int));
    }
}

/// The lexicographic order on sequences is a strict total order whenever
/// the order on elements is.
pub proof fn lemma_lex_strict_total<T>(lt: spec_fn(T, T) -> bool)
    requires
        strict_total_order(lt),
    ensures
        forall|a: Seq<T>| !#[trigger] lex_lt(a, a, lt),
        forall|a: Seq<T>, b: Seq<T>, c: Seq<T>|
            #[trigger] lex_lt(a, b, lt) && #[trigger] lex_lt(b, c, lt) ==> lex_lt(a, c, lt),
        forall|a: Seq<T>, b: Seq<T>| a != b ==> #[trigger] lex_lt(a, b, lt) || #[trigger] lex_lt(b, a, lt),
{
    assert forall|a: Seq<T>| !#[trigger] lex_lt(a, a, lt) by {
        lemma_lex_irreflexive_from(a, 0, lt);
    }
    assert forall|a: Seq<T>, b: Seq<T>, c: Seq<T>|
        #[trigger] lex_lt(a, b, lt) && #[trigger] lex_lt(b, c, lt) implies lex_lt(a, c, lt) by {
        lemma_lex_transitive_from(a, b, c, 0, lt);
    }
    assert forall|a: Seq<T>, b: Seq<T>| a != b implies #[trigger] lex_lt(a, b, lt) || #[trigger] lex_lt(b, a, lt) by {
        if !lex_lt(a, b, lt) && !lex_lt(b, a, lt) {
            lemma_lex_total_from(a, b, 0, lt);
            assert(a =~= a.skip(0));
            assert(b =~= b.skip(0));
        }
    }
}

/// The order on bytes is a strict total order.
pub proof fn lemma_byte_order()
    ensures
        strict_total_order(byte_lt()),
{
}

/// The order on values is a strict total order.
pub proof fn lemma_atom_order()
    ensures
        strict_total_order(atom_order()),
{
    lemma_byte_order();
    lemma_lex_strict_total(byte_lt());
    assert forall|x: Atom, y: Atom| x != y implies #[trigger] atom_order()(x, y) || #[trigger] atom_order()(y, x) by {
        if let (Atom::Text(s), Atom::Text(t)) = (x, y) {
            if encode_utf8(s) == encode_utf8(t) {
                encode_utf8_decode_utf8(s);
                encode_utf8_decode_utf8(t);
            }
        }
    }
}

/// The order on tuples is a strict total order.
pub proof fn lemma_tuple_order()
    ensures
        forall|a: Seq<Atom>| !#[trigger] tuple_lt(a, a),
        forall|a: Seq<Atom>, b: Seq<Atom>, c: Seq<Atom>|
            #[trigger] tuple_lt(a, b) && #[trigger] tuple_lt(b, c) ==> tuple_lt(a, c),
        forall|a: Seq<Atom>, b: Seq<Atom>| a != b ==> #[trigger] tuple_lt(a, b) || #[trigger] tuple_lt(b, a),
{
    lemma_atom_order();
    lemma_lex_strict_total(atom_order());
}

/// Integers are ordered by value and come before every string; a string
/// comes before every longer string that begins with it; and tuples are
/// ordered by their first values where those differ.
pub proof fn law_value_order(m: i64, n: i64, s: Seq<char>, t: Seq<char>, a: Atom, b: Atom, rest1: Seq<Atom>, rest2: Seq<Atom>)
    ensures
        atom_lt(Atom::Int(m), Atom::Int(n)) <==> m < n,
        atom_lt(Atom::Int(m), Atom::Text(s)),
        !atom_lt(Atom::Text(s), Atom::Int(m)),
        t.len() > 0 ==> text_lt(s, s + t),
        !text_lt(s, s),
        a != b ==> (tuple_lt(seq![a] + rest1, seq![b] + rest2) <==> atom_lt(a, b)),
{
    if t.len() > 0 {
        lemma_encode_concat(s, t);
        lemma_encode_nonempty(t);
        lemma_prefix_lt(encode_utf8(s), encode_utf8(t), 0);
    }
    lemma_lex_irreflexive_from(encode_utf8(s), 0, byte_lt());
    let x = seq![a] + rest1;
    let y = seq![b] + rest2;
    assert(x[0] == a && y[0] == b);
}

proof fn lemma_encode_concat(s: Seq<char>, t: Seq<char>)
    ensures
        encode_utf8(s + t) == encode_utf8(s) + encode_utf8(t),
    decreases s.len(),
{
    if s.len() == 0 {
        assert(s + t =~= t);
    } else {
        lemma_encode_concat(s.drop_first(), t);
        assert((s + t).drop_first() =~= s.drop_first() + t);
        assert((s + t)[0] == s[0]);
        assert(encode_utf8(s + t) =~= encode_utf8(s) + encode_utf8(t));
    }
}

proof fn lemma_encode_nonempty(t: Seq<char>)
    requires
        t.len() > 0,
    ensures
        encode_utf8(t).len() > 0,
{
    assert(encode_scalar(t[0] as u32).len() >= 1);
}

proof fn lemma_prefix_lt(p: Seq<u8>, q: Seq<u8>, i: nat)
    requires
        q.len() > 0,
        i <= p.len(),
    ensures
        lex_lt_from(p, p + q, i, byte_lt()),
    decreases p.len() - i,
{
    if i < p.len() {
        lemma_prefix_lt(p, q, i + 1);
        assert((p + q)[i as int] == p[i as int]);
    }
}

/// The outcome of comparing two values.
pub enum Order {
    Less,
    Equal,
    Greater,
}

/// Compares two byte strings lexicographically.
fn compare_bytes(a: &[u8], b: &[u8]) -> (o: Order)
    ensures
        (o is Less) <==> lex_lt(a@, b@, byte_lt()),
        (o is Equal) <==> a@ == b@,
        (o is Greater) <==> lex_lt(b@, a@, byte_lt()),
{
    proof {
        lemma_byte_order();
        lemma_lex_strict_total(byte_lt());
    }
    let mut i: usize = 0;
    while i < a.len() && i < b.len()
        invariant
            i <= a.len(),
            i <= b.len(),
            forall|j: int| 0 <= j < i ==> a@[j] == b@[j],
            lex_lt(a@, b@, byte_lt()) == lex_lt_from(a@, b@, i as nat, byte_lt()),
            lex_lt(b@, a@, byte_lt()) == lex_lt_from(b@, a@, i as nat, byte_lt()),
        decreases a.len() - i,
    {
        if a[i] < b[i] {
            return Order::Less;
        } else if a[i] > b[i] {
            return Order::Greater;
        }
        i = i + 1;
    }
    if i < b.len() {
        proof {
            if a@ == b@ {
                lemma_lex_irreflexive_from(a@, 0, byte_lt());
            }
        }
        Order::Less
    } else if i < a.len() {
        Order::Greater
    } else {
        assert(a@ =~= b@);
        Order::Equal
    }
}

/// Compares two values in the order of [`atom_lt`].
pub fn compare_values(x: &Value, y: &Value) -> (o: Order)
    ensures
        (o is Less) <==> atom_lt(x@, y@),
        (o is Equal) <==> x@ == y@,
        (o is Greater) <==> atom_lt(y@, x@),
{
    proof {
        lemma_atom_order();
        assert(!atom_order()(x@, x@));
    }
    match (x, y) {
        (Value::Int(m), Value::Int(n)) => {
            if *m < *n {
                Order::Less
            } else if *m > *n {
                Order::Greater
            } else {
                Order::Equal
            }
        },
        (Value::Int(_), Value::Str(_)) => Order::Less,
        (Value::Str(_), Value::Int(_)) => Order::Greater,
        (Value::Str(s), Value::Str(t)) => {
            let o = compare_bytes(s.as_str().as_bytes(), t.as_str().as_bytes());
            proof {
                if encode_utf8(s@) == encode_utf8(t@) {
                    encode_utf8_decode_utf8(s@);
                    encode_utf8_decode_utf8(t@);
                }
            }
            o
        },
    }
}

/// Compares two tuples in the order of [`tuple_lt`].
pub fn compare_tuples(a: &Vec<Value>, b: &Vec<Value>) -> (o: Order)
    ensures
        (o is Less) <==> tuple_lt(a.deep_view(), b.deep_view()),
        (o is Equal) <==> a.deep_view() == b.deep_view(),
        (o is Greater) <==> tuple_lt(b.deep_view(), a.deep_view()),
{
    let ghost av = a.deep_view();
    let ghost bv = b.deep_view();
    proof {
        lemma_tuple_order();
        lemma_atom_order();
    }
    let mut i: usize = 0;
    while i < a.len() && i < b.len()
        invariant
            i <= a.len(),
            i <= b.len(),
            av == a.deep_view(),
            bv == b.deep_view(),
            forall|j: int| 0 <= j < i ==> av[j] == bv[j],
            tuple_lt(av, bv) == lex_lt_from(av, bv, i as nat, atom_order()),
            tuple_lt(bv, av) == lex_lt_from(bv, av, i as nat, atom_order()),
        decreases a.len() - i,
    {
        match compare_values(&a[i], &b[i]) {
            Order::Less => {
                return Order::Less;
            },
            Order::Greater => {
                return Order::Greater;
            },
            Order::Equal => {},
        }
        i = i + 1;
    }
    if i < b.len() {
        Order::Less
    } else if i < a.len() {
        Order::Greater
    } else {
        assert(av =~= bv);
        Order::Equal
    }
}

/// Whether tuple `a` comes before tuple `b`.
pub fn tuple_less(a: &Vec<Value>, b: &Vec<Value>) -> (r: bool)
    ensures
        r == tuple_lt(a.deep_view(), b.deep_view()),
{
    match compare_tuples(a, b) {
        Order::Less => true,
        _ => false,
    }
}

/// Whether the tuples `a` and `b` hold the same values.
pub fn tuples_equal(a: &Vec<Value>, b: &Vec<Value>) -> (r: bool)
    ensures
        r == (a.deep_view() == b.deep_view()),
{
    match compare_tuples(a, b) {
        Order::Equal => true,
        _ => false,
    }
}

/// Whether the strings `a` and `b` hold the same characters.
pub fn text_equal(a: &str, b: &str) -> (r: bool)
    ensures
        r == (a@ == b@),
{
    let o = compare_bytes(a.as_bytes(), b.as_bytes());
    proof {
        if encode_utf8(a@) == encode_utf8(b@) {
            encode_utf8_decode_utf8(a@);
            encode_utf8_decode_utf8(b@);
        }
    }
    match o {
        Order::Equal => true,
        _ => false,
    }
}

} // verus!
