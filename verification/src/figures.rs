//! The results of the figures of section 2.1 of the paper, computed from
//! the operations' contracts on the paper's data.
use vstd::prelude::*;
use crate::value::Atom;
use crate::relation::{pick, project_body, projector, restrict_body, has_partner};
use crate::join::{
    agree, common_columns, composition_positions, first_match, join_body, join_heading, joined,
    positions_not_named, r_common, s_common, s_extra, shared_names, unused_below,
};
use crate::data::{
    fig5_r_rows, fig5_s_rows, fig7_u_rows, fig8_r_rows, fig8_s_rows, fig8_t_rows, fig12_r_rows,
    fig12_s_rows, fig13_r_rows, fig13_s_rows, num, supply_rows, text,
};
use crate::facts::lemma_project_listing;

verus! {

broadcast use vstd::seq_lib::group_seq_properties;

/// Figure 4: the projection of `supply` onto project and supplier.
pub proof fn figure_4_permuted_projection()
    ensures
        pick(seq!["supplier"@, "part"@, "project"@, "quantity"@], seq![2usize, 0usize]) == seq!["project"@, "supplier"@],
        project_body(supply_rows().to_set(), seq![2usize, 0usize]) == seq![seq![num(1), num(4)], seq![num(5), num(1)], seq![num(5), num(2)], seq![num(7), num(2)]].to_set(),
{
    let rows = supply_rows();
    let m = rows.map_values(projector(seq![2usize, 0usize]));
    let e = seq![seq![num(1), num(4)], seq![num(5), num(1)], seq![num(5), num(2)], seq![num(7), num(2)]];
    assert(m =~~= seq![seq![num(5), num(1)], seq![num(5), num(1)], seq![num(7), num(2)], seq![num(5), num(2)], seq![num(1), num(4)]]);
    assert(e =~~= seq![seq![num(1), num(4)], seq![num(5), num(1)], seq![num(5), num(2)], seq![num(7), num(2)]]);
    assert(pick(seq!["supplier"@, "part"@, "project"@, "quantity"@], seq![2usize, 0usize]) =~= seq!["project"@, "supplier"@]);
    assert forall|x: Seq<Atom>| #[trigger] m.to_set().contains(x) implies e.to_set().contains(x) by {
        let i = choose|i: int| 0 <= i < m.len() && m[i] == x;
        if i == 0 { assert(e[1] == x);
        } else if i == 1 { assert(e[1] == x);
        } else if i == 2 { assert(e[3] == x);
        } else if i == 3 { assert(e[2] == x);
        } else if i == 4 { assert(e[0] == x);
        }
    }
    assert forall|x: Seq<Atom>| #[trigger] e.to_set().contains(x) implies m.to_set().contains(x) by {
        let i = choose|i: int| 0 <= i < e.len() && e[i] == x;
        if i == 0 { assert(m[4] == x);
        } else if i == 1 { assert(m[0] == x);
        } else if i == 2 { assert(m[3] == x);
        } else if i == 3 { assert(m[2] == x);
        }
    }
    assert(m.to_set() =~= e.to_set());
    lemma_project_listing(rows, seq![2usize, 0usize]);
}

/// Section 2.1.1: `supply` with its columns permuted to project, part, supplier, quantity; no tuple is lost.
pub proof fn permutation_of_supply()
    ensures
        pick(seq!["supplier"@, "part"@, "project"@, "quantity"@], seq![2usize, 1usize, 0usize, 3usize]) == seq!["project"@, "part"@, "supplier"@, "quantity"@],
        project_body(supply_rows().to_set(), seq![2usize, 1usize, 0usize, 3usize]) == seq![seq![num(1), num(1), num(4), num(12)], seq![num(5), num(2), num(1), num(17)], seq![num(5), num(3), num(1), num(23)], seq![num(5), num(7), num(2), num(4)], seq![num(7), num(3), num(2), num(9)]].to_set(),
{
    let rows = supply_rows();
    let m = rows.map_values(projector(seq![2usize, 1usize, 0usize, 3usize]));
    let e = seq![seq![num(1), num(1), num(4), num(12)], seq![num(5), num(2), num(1), num(17)], seq![num(5), num(3), num(1), num(23)], seq![num(5), num(7), num(2), num(4)], seq![num(7), num(3), num(2), num(9)]];
    assert(m =~~= seq![seq![num(5), num(2), num(1), num(17)], seq![num(5), num(3), num(1), num(23)], seq![num(7), num(3), num(2), num(9)], seq![num(5), num(7), num(2), num(4)], seq![num(1), num(1), num(4), num(12)]]);
    assert(e =~~= seq![seq![num(1), num(1), num(4), num(12)], seq![num(5), num(2), num(1), num(17)], seq![num(5), num(3), num(1), num(23)], seq![num(5), num(7), num(2), num(4)], seq![num(7), num(3), num(2), num(9)]]);
    assert(pick(seq!["supplier"@, "part"@, "project"@, "quantity"@], seq![2usize, 1usize, 0usize, 3usize]) =~= seq!["project"@, "part"@, "supplier"@, "quantity"@]);
    assert forall|x: Seq<Atom>| #[trigger] m.to_set().contains(x) implies e.to_set().contains(x) by {
        let i = choose|i: int| 0 <= i < m.len() && m[i] == x;
        if i == 0 { assert(e[1] == x);
        } else if i == 1 { assert(e[2] == x);
        } else if i == 2 { assert(e[4] == x);
        } else if i == 3 { assert(e[3] == x);
        } else if i == 4 { assert(e[0] == x);
        }
    }
    assert forall|x: Seq<Atom>| #[trigger] e.to_set().contains(x) implies m.to_set().contains(x) by {
        let i = choose|i: int| 0 <= i < e.len() && e[i] == x;
        if i == 0 { assert(m[4] == x);
        } else if i == 1 { assert(m[0] == x);
        } else if i == 2 { assert(m[1] == x);
        } else if i == 3 { assert(m[3] == x);
        } else if i == 4 { assert(m[2] == x);
        }
    }
    assert(m.to_set() =~= e.to_set());
    lemma_project_listing(rows, seq![2usize, 1usize, 0usize, 3usize]);
}

/// Figure 7: projecting U onto its first two columns gives R of figure 5.
pub proof fn figure_7_first_projection()
    ensures
        pick(seq!["supplier"@, "part"@, "project"@], seq![0usize, 1usize]) == seq!["supplier"@, "part"@],
        project_body(fig7_u_rows().to_set(), seq![0usize, 1usize]) == fig5_r_rows().to_set(),
{
    let rows = fig7_u_rows();
    let m = rows.map_values(projector(seq![0usize, 1usize]));
    let e = fig5_r_rows();
    assert(m =~~= seq![seq![num(1), num(1)], seq![num(2), num(1)], seq![num(2), num(2)]]);
    assert(e =~~= seq![seq![num(1), num(1)], seq![num(2), num(1)], seq![num(2), num(2)]]);
    assert(pick(seq!["supplier"@, "part"@, "project"@], seq![0usize, 1usize]) =~= seq!["supplier"@, "part"@]);
    assert forall|x: Seq<Atom>| #[trigger] m.to_set().contains(x) implies e.to_set().contains(x) by {
        let i = choose|i: int| 0 <= i < m.len() && m[i] == x;
        if i == 0 { assert(e[0] == x);
        } else if i == 1 { assert(e[1] == x);
        } else if i == 2 { assert(e[2] == x);
        }
    }
    assert forall|x: Seq<Atom>| #[trigger] e.to_set().contains(x) implies m.to_set().contains(x) by {
        let i = choose|i: int| 0 <= i < e.len() && e[i] == x;
        if i == 0 { assert(m[0] == x);
        } else if i == 1 { assert(m[1] == x);
        } else if i == 2 { assert(m[2] == x);
        }
    }
    assert(m.to_set() =~= e.to_set());
    lemma_project_listing(rows, seq![0usize, 1usize]);
}

/// Figure 7: projecting U onto its last two columns gives S of figure 5.
pub proof fn figure_7_second_projection()
    ensures
        pick(seq!["supplier"@, "part"@, "project"@], seq![1usize, 2usize]) == seq!["part"@, "project"@],
        project_body(fig7_u_rows().to_set(), seq![1usize, 2usize]) == fig5_s_rows().to_set(),
{
    let rows = fig7_u_rows();
    let m = rows.map_values(projector(seq![1usize, 2usize]));
    let e = fig5_s_rows();
    assert(m =~~= seq![seq![num(1), num(2)], seq![num(1), num(1)], seq![num(2), num(1)]]);
    assert(e =~~= seq![seq![num(1), num(1)], seq![num(1), num(2)], seq![num(2), num(1)]]);
    assert(pick(seq!["supplier"@, "part"@, "project"@], seq![1usize, 2usize]) =~= seq!["part"@, "project"@]);
    assert forall|x: Seq<Atom>| #[trigger] m.to_set().contains(x) implies e.to_set().contains(x) by {
        let i = choose|i: int| 0 <= i < m.len() && m[i] == x;
        if i == 0 { assert(e[1] == x);
        } else if i == 1 { assert(e[0] == x);
        } else if i == 2 { assert(e[2] == x);
        }
    }
    assert forall|x: Seq<Atom>| #[trigger] e.to_set().contains(x) implies m.to_set().contains(x) by {
        let i = choose|i: int| 0 <= i < e.len() && e[i] == x;
        if i == 0 { assert(m[1] == x);
        } else if i == 1 { assert(m[0] == x);
        } else if i == 2 { assert(m[2] == x);
        }
    }
    assert(m.to_set() =~= e.to_set());
    lemma_project_listing(rows, seq![1usize, 2usize]);
}

/// Figure 11: the composition of R and S that U of figure 7 yields: U projected onto supplier and project.
pub proof fn figure_11_composition_from_u()
    ensures
        pick(seq!["supplier"@, "part"@, "project"@], seq![0usize, 2usize]) == seq!["supplier"@, "project"@],
        project_body(fig7_u_rows().to_set(), seq![0usize, 2usize]) == seq![seq![num(1), num(2)], seq![num(2), num(1)]].to_set(),
{
    let rows = fig7_u_rows();
    let m = rows.map_values(projector(seq![0usize, 2usize]));
    let e = seq![seq![num(1), num(2)], seq![num(2), num(1)]];
    assert(m =~~= seq![seq![num(1), num(2)], seq![num(2), num(1)], seq![num(2), num(1)]]);
    assert(e =~~= seq![seq![num(1), num(2)], seq![num(2), num(1)]]);
    assert(pick(seq!["supplier"@, "part"@, "project"@], seq![0usize, 2usize]) =~= seq!["supplier"@, "project"@]);
    assert forall|x: Seq<Atom>| #[trigger] m.to_set().contains(x) implies e.to_set().contains(x) by {
        let i = choose|i: int| 0 <= i < m.len() && m[i] == x;
        if i == 0 { assert(e[0] == x);
        } else if i == 1 { assert(e[1] == x);
        } else if i == 2 { assert(e[1] == x);
        }
    }
    assert forall|x: Seq<Atom>| #[trigger] e.to_set().contains(x) implies m.to_set().contains(x) by {
        let i = choose|i: int| 0 <= i < e.len() && e[i] == x;
        if i == 0 { assert(m[0] == x);
        } else if i == 1 { assert(m[1] == x);
        }
    }
    assert(m.to_set() =~= e.to_set());
    lemma_project_listing(rows, seq![0usize, 2usize]);
}

/// Figure 6: the natural join of R and S of figure 5.
pub proof fn figure_6_natural_join()
    ensures
        join_heading(seq!["supplier"@, "part"@], seq!["part"@, "project"@]) == seq!["supplier"@, "part"@, "project"@],
        join_body(fig5_r_rows().to_set(), fig5_s_rows().to_set(), seq!["supplier"@, "part"@], seq!["part"@, "project"@]) == seq![seq![num(1), num(1), num(1)], seq![num(1), num(1), num(2)], seq![num(2), num(1), num(1)], seq![num(2), num(1), num(2)], seq![num(2), num(2), num(1)]].to_set(),
{
    reveal_strlit("part");
    reveal_strlit("project");
    reveal_strlit("supplier");
    let rc = seq!["supplier"@, "part"@];
    let sc = seq!["part"@, "project"@];
    assert(common_columns(rc, sc, 0) == (Seq::<usize>::empty(), Seq::<usize>::empty()));
    assert(first_match(rc[0], sc, Seq::<usize>::empty(), 2) is None);
    assert("project"@.len() != "supplier"@.len()); assert(first_match(rc[0], sc, Seq::<usize>::empty(), 1) is None);
    assert("part"@.len() != "supplier"@.len()); assert(first_match(rc[0], sc, Seq::<usize>::empty(), 0) is None);
    assert(common_columns(rc, sc, 1) == (Seq::<usize>::empty(), Seq::<usize>::empty()));
    assert(first_match(rc[1], sc, Seq::<usize>::empty(), 2) is None);
    assert("project"@.len() != "part"@.len()); assert(first_match(rc[1], sc, Seq::<usize>::empty(), 1) is None);
    assert(first_match(rc[1], sc, Seq::<usize>::empty(), 0) == Some(0usize));
    assert(common_columns(rc, sc, 2) == (seq![1usize], seq![0usize]));
    assert(unused_below(0, seq![0usize]) == Seq::<usize>::empty());
    assert(unused_below(1, seq![0usize]) == Seq::<usize>::empty());
    assert(unused_below(2, seq![0usize]) == seq![1usize]);
    assert(r_common(rc, sc) == seq![1usize]);
    assert(s_common(rc, sc) == seq![0usize]);
    assert(s_extra(rc, sc) == seq![1usize]);
    assert(join_heading(rc, sc) =~= seq!["supplier"@, "part"@, "project"@]);
    let rr = fig5_r_rows();
    let ss = fig5_s_rows();
    let e = seq![seq![num(1), num(1), num(1)], seq![num(1), num(1), num(2)], seq![num(2), num(1), num(1)], seq![num(2), num(1), num(2)], seq![num(2), num(2), num(1)]];
    assert(rr =~~= seq![seq![num(1), num(1)], seq![num(2), num(1)], seq![num(2), num(2)]]);
    assert(ss =~~= seq![seq![num(1), num(1)], seq![num(1), num(2)], seq![num(2), num(1)]]);
    let jb = join_body(rr.to_set(), ss.to_set(), rc, sc);
    assert forall|t: Seq<Atom>| #[trigger] jb.contains(t) implies e.to_set().contains(t) by {
        let (a, b) = choose|a: Seq<Atom>, b: Seq<Atom>| #[trigger] rr.to_set().contains(a) && #[trigger] ss.to_set().contains(b) && agree(a, b, rc, sc) && t == joined(a, b, rc, sc);
        let i = choose|i: int| 0 <= i < rr.len() && rr[i] == a;
        let j = choose|j: int| 0 <= j < ss.len() && ss[j] == b;
        if i == 0 && j == 0 { assert(joined(rr[0], ss[0], rc, sc) =~= e[0]);
        } else if i == 0 && j == 1 { assert(joined(rr[0], ss[1], rc, sc) =~= e[1]);
        } else if i == 0 && j == 2 {  assert(pick(rr[0], seq![1usize])[0] != pick(ss[2], seq![0usize])[0]);
        } else if i == 1 && j == 0 { assert(joined(rr[1], ss[0], rc, sc) =~= e[2]);
        } else if i == 1 && j == 1 { assert(joined(rr[1], ss[1], rc, sc) =~= e[3]);
        } else if i == 1 && j == 2 {  assert(pick(rr[1], seq![1usize])[0] != pick(ss[2], seq![0usize])[0]);
        } else if i == 2 && j == 0 {  assert(pick(rr[2], seq![1usize])[0] != pick(ss[0], seq![0usize])[0]);
        } else if i == 2 && j == 1 {  assert(pick(rr[2], seq![1usize])[0] != pick(ss[1], seq![0usize])[0]);
        } else if i == 2 && j == 2 { assert(joined(rr[2], ss[2], rc, sc) =~= e[4]);
        }
    }
    assert forall|t: Seq<Atom>| #[trigger] e.to_set().contains(t) implies jb.contains(t) by {
        let m = choose|m: int| 0 <= m < e.len() && e[m] == t;
        if m == 0 { assert(rr.to_set().contains(rr[0]) && ss.to_set().contains(ss[0])); assert(pick(rr[0], seq![1usize]) =~= pick(ss[0], seq![0usize])); assert(joined(rr[0], ss[0], rc, sc) =~= t);
        } else if m == 1 { assert(rr.to_set().contains(rr[0]) && ss.to_set().contains(ss[1])); assert(pick(rr[0], seq![1usize]) =~= pick(ss[1], seq![0usize])); assert(joined(rr[0], ss[1], rc, sc) =~= t);
        } else if m == 2 { assert(rr.to_set().contains(rr[1]) && ss.to_set().contains(ss[0])); assert(pick(rr[1], seq![1usize]) =~= pick(ss[0], seq![0usize])); assert(joined(rr[1], ss[0], rc, sc) =~= t);
        } else if m == 3 { assert(rr.to_set().contains(rr[1]) && ss.to_set().contains(ss[1])); assert(pick(rr[1], seq![1usize]) =~= pick(ss[1], seq![0usize])); assert(joined(rr[1], ss[1], rc, sc) =~= t);
        } else if m == 4 { assert(rr.to_set().contains(rr[2]) && ss.to_set().contains(ss[2])); assert(pick(rr[2], seq![1usize]) =~= pick(ss[2], seq![0usize])); assert(joined(rr[2], ss[2], rc, sc) =~= t);
        }
    }
    assert(jb =~= e.to_set());
}

/// Figure 9, first step: the natural join of R and S of figure 8.
pub proof fn figure_9_first_join()
    ensures
        join_heading(seq!["s"@, "p"@], seq!["p"@, "j"@]) == seq!["s"@, "p"@, "j"@],
        join_body(fig8_r_rows().to_set(), fig8_s_rows().to_set(), seq!["s"@, "p"@], seq!["p"@, "j"@]) == seq![seq![text("1"), text("a"), text("d")], seq![text("1"), text("a"), text("e")], seq![text("2"), text("a"), text("d")], seq![text("2"), text("a"), text("e")], seq![text("2"), text("b"), text("d")], seq![text("2"), text("b"), text("e")]].to_set(),
{
    reveal_strlit("1");
    reveal_strlit("2");
    reveal_strlit("a");
    reveal_strlit("b");
    reveal_strlit("d");
    reveal_strlit("e");
    reveal_strlit("j");
    reveal_strlit("p");
    reveal_strlit("s");
    let rc = seq!["s"@, "p"@];
    let sc = seq!["p"@, "j"@];
    assert(common_columns(rc, sc, 0) == (Seq::<usize>::empty(), Seq::<usize>::empty()));
    assert(first_match(rc[0], sc, Seq::<usize>::empty(), 2) is None);
    assert("j"@[0] != "s"@[0]); assert(first_match(rc[0], sc, Seq::<usize>::empty(), 1) is None);
    assert("p"@[0] != "s"@[0]); assert(first_match(rc[0], sc, Seq::<usize>::empty(), 0) is None);
    assert(common_columns(rc, sc, 1) == (Seq::<usize>::empty(), Seq::<usize>::empty()));
    assert(first_match(rc[1], sc, Seq::<usize>::empty(), 2) is None);
    assert("j"@[0] != "p"@[0]); assert(first_match(rc[1], sc, Seq::<usize>::empty(), 1) is None);
    assert(first_match(rc[1], sc, Seq::<usize>::empty(), 0) == Some(0usize));
    assert(common_columns(rc, sc, 2) == (seq![1usize], seq![0usize]));
    assert(unused_below(0, seq![0usize]) == Seq::<usize>::empty());
    assert(unused_below(1, seq![0usize]) == Seq::<usize>::empty());
    assert(unused_below(2, seq![0usize]) == seq![1usize]);
    assert(r_common(rc, sc) == seq![1usize]);
    assert(s_common(rc, sc) == seq![0usize]);
    assert(s_extra(rc, sc) == seq![1usize]);
    assert(join_heading(rc, sc) =~= seq!["s"@, "p"@, "j"@]);
    let rr = fig8_r_rows();
    let ss = fig8_s_rows();
    let e = seq![seq![text("1"), text("a"), text("d")], seq![text("1"), text("a"), text("e")], seq![text("2"), text("a"), text("d")], seq![text("2"), text("a"), text("e")], seq![text("2"), text("b"), text("d")], seq![text("2"), text("b"), text("e")]];
    assert(rr =~~= seq![seq![text("1"), text("a")], seq![text("2"), text("a")], seq![text("2"), text("b")]]);
    assert(ss =~~= seq![seq![text("a"), text("d")], seq![text("a"), text("e")], seq![text("b"), text("d")], seq![text("b"), text("e")]]);
    let jb = join_body(rr.to_set(), ss.to_set(), rc, sc);
    assert forall|t: Seq<Atom>| #[trigger] jb.contains(t) implies e.to_set().contains(t) by {
        let (a, b) = choose|a: Seq<Atom>, b: Seq<Atom>| #[trigger] rr.to_set().contains(a) && #[trigger] ss.to_set().contains(b) && agree(a, b, rc, sc) && t == joined(a, b, rc, sc);
        let i = choose|i: int| 0 <= i < rr.len() && rr[i] == a;
        let j = choose|j: int| 0 <= j < ss.len() && ss[j] == b;
        if i == 0 && j == 0 { assert(joined(rr[0], ss[0], rc, sc) =~= e[0]);
        } else if i == 0 && j == 1 { assert(joined(rr[0], ss[1], rc, sc) =~= e[1]);
        } else if i == 0 && j == 2 { assert("a"@[0] != "b"@[0]); assert(pick(rr[0], seq![1usize])[0] != pick(ss[2], seq![0usize])[0]);
        } else if i == 0 && j == 3 { assert("a"@[0] != "b"@[0]); assert(pick(rr[0], seq![1usize])[0] != pick(ss[3], seq![0usize])[0]);
        } else if i == 1 && j == 0 { assert(joined(rr[1], ss[0], rc, sc) =~= e[2]);
        } else if i == 1 && j == 1 { assert(joined(rr[1], ss[1], rc, sc) =~= e[3]);
        } else if i == 1 && j == 2 { assert("a"@[0] != "b"@[0]); assert(pick(rr[1], seq![1usize])[0] != pick(ss[2], seq![0usize])[0]);
        } else if i == 1 && j == 3 { assert("a"@[0] != "b"@[0]); assert(pick(rr[1], seq![1usize])[0] != pick(ss[3], seq![0usize])[0]);
        } else if i == 2 && j == 0 { assert("b"@[0] != "a"@[0]); assert(pick(rr[2], seq![1usize])[0] != pick(ss[0], seq![0usize])[0]);
        } else if i == 2 && j == 1 { assert("b"@[0] != "a"@[0]); assert(pick(rr[2], seq![1usize])[0] != pick(ss[1], seq![0usize])[0]);
        } else if i == 2 && j == 2 { assert(joined(rr[2], ss[2], rc, sc) =~= e[4]);
        } else if i == 2 && j == 3 { assert(joined(rr[2], ss[3], rc, sc) =~= e[5]);
        }
    }
    assert forall|t: Seq<Atom>| #[trigger] e.to_set().contains(t) implies jb.contains(t) by {
        let m = choose|m: int| 0 <= m < e.len() && e[m] == t;
        if m == 0 { assert(rr.to_set().contains(rr[0]) && ss.to_set().contains(ss[0])); assert(pick(rr[0], seq![1usize]) =~= pick(ss[0], seq![0usize])); assert(joined(rr[0], ss[0], rc, sc) =~= t);
        } else if m == 1 { assert(rr.to_set().contains(rr[0]) && ss.to_set().contains(ss[1])); assert(pick(rr[0], seq![1usize]) =~= pick(ss[1], seq![0usize])); assert(joined(rr[0], ss[1], rc, sc) =~= t);
        } else if m == 2 { assert(rr.to_set().contains(rr[1]) && ss.to_set().contains(ss[0])); assert(pick(rr[1], seq![1usize]) =~= pick(ss[0], seq![0usize])); assert(joined(rr[1], ss[0], rc, sc) =~= t);
        } else if m == 3 { assert(rr.to_set().contains(rr[1]) && ss.to_set().contains(ss[1])); assert(pick(rr[1], seq![1usize]) =~= pick(ss[1], seq![0usize])); assert(joined(rr[1], ss[1], rc, sc) =~= t);
        } else if m == 4 { assert(rr.to_set().contains(rr[2]) && ss.to_set().contains(ss[2])); assert(pick(rr[2], seq![1usize]) =~= pick(ss[2], seq![0usize])); assert(joined(rr[2], ss[2], rc, sc) =~= t);
        } else if m == 5 { assert(rr.to_set().contains(rr[2]) && ss.to_set().contains(ss[3])); assert(pick(rr[2], seq![1usize]) =~= pick(ss[3], seq![0usize])); assert(joined(rr[2], ss[3], rc, sc) =~= t);
        }
    }
    assert(jb =~= e.to_set());
}

/// Figure 9: the cyclic 3-join U' of R, S and T of figure 8, joining T to the join of R and S.
pub proof fn figure_9_cyclic_join()
    ensures
        join_heading(seq!["s"@, "p"@, "j"@], seq!["j"@, "s"@]) == seq!["s"@, "p"@, "j"@],
        join_body(seq![seq![text("1"), text("a"), text("d")], seq![text("1"), text("a"), text("e")], seq![text("2"), text("a"), text("d")], seq![text("2"), text("a"), text("e")], seq![text("2"), text("b"), text("d")], seq![text("2"), text("b"), text("e")]].to_set(), fig8_t_rows().to_set(), seq!["s"@, "p"@, "j"@], seq!["j"@, "s"@]) == seq![seq![text("1"), text("a"), text("d")], seq![text("2"), text("a"), text("d")], seq![text("2"), text("a"), text("e")], seq![text("2"), text("b"), text("d")], seq![text("2"), text("b"), text("e")]].to_set(),
{
    reveal_strlit("1");
    reveal_strlit("2");
    reveal_strlit("a");
    reveal_strlit("b");
    reveal_strlit("d");
    reveal_strlit("e");
    reveal_strlit("j");
    reveal_strlit("p");
    reveal_strlit("s");
    let rc = seq!["s"@, "p"@, "j"@];
    let sc = seq!["j"@, "s"@];
    assert(common_columns(rc, sc, 0) == (Seq::<usize>::empty(), Seq::<usize>::empty()));
    assert(first_match(rc[0], sc, Seq::<usize>::empty(), 2) is None);
    assert(first_match(rc[0], sc, Seq::<usize>::empty(), 1) == Some(1usize));
    assert("j"@[0] != "s"@[0]); assert(first_match(rc[0], sc, Seq::<usize>::empty(), 0) == Some(1usize));
    assert(common_columns(rc, sc, 1) == (seq![0usize], seq![1usize]));
    assert(first_match(rc[1], sc, seq![1usize], 2) is None);
    assert("s"@[0] != "p"@[0]); assert(first_match(rc[1], sc, seq![1usize], 1) is None);
    assert("j"@[0] != "p"@[0]); assert(first_match(rc[1], sc, seq![1usize], 0) is None);
    assert(common_columns(rc, sc, 2) == (seq![0usize], seq![1usize]));
    assert(first_match(rc[2], sc, seq![1usize], 2) is None);
    assert("s"@[0] != "j"@[0]); assert(first_match(rc[2], sc, seq![1usize], 1) is None);
    assert(first_match(rc[2], sc, seq![1usize], 0) == Some(0usize));
    assert(common_columns(rc, sc, 3) == (seq![0usize, 2usize], seq![1usize, 0usize]));
    assert(unused_below(0, seq![1usize, 0usize]) == Seq::<usize>::empty());
    assert(unused_below(1, seq![1usize, 0usize]) == Seq::<usize>::empty());
    assert(unused_below(2, seq![1usize, 0usize]) == Seq::<usize>::empty());
    assert(r_common(rc, sc) == seq![0usize, 2usize]);
    assert(s_common(rc, sc) == seq![1usize, 0usize]);
    assert(s_extra(rc, sc) == Seq::<usize>::empty());
    assert(join_heading(rc, sc) =~= seq!["s"@, "p"@, "j"@]);
    let rr = seq![seq![text("1"), text("a"), text("d")], seq![text("1"), text("a"), text("e")], seq![text("2"), text("a"), text("d")], seq![text("2"), text("a"), text("e")], seq![text("2"), text("b"), text("d")], seq![text("2"), text("b"), text("e")]];
    let ss = fig8_t_rows();
    let e = seq![seq![text("1"), text("a"), text("d")], seq![text("2"), text("a"), text("d")], seq![text("2"), text("a"), text("e")], seq![text("2"), text("b"), text("d")], seq![text("2"), text("b"), text("e")]];
    assert(rr =~~= seq![seq![text("1"), text("a"), text("d")], seq![text("1"), text("a"), text("e")], seq![text("2"), text("a"), text("d")], seq![text("2"), text("a"), text("e")], seq![text("2"), text("b"), text("d")], seq![text("2"), text("b"), text("e")]]);
    assert(ss =~~= seq![seq![text("d"), text("1")], seq![text("d"), text("2")], seq![text("e"), text("2")]]);
    let jb = join_body(rr.to_set(), ss.to_set(), rc, sc);
    assert forall|t: Seq<Atom>| #[trigger] jb.contains(t) implies e.to_set().contains(t) by {
        let (a, b) = choose|a: Seq<Atom>, b: Seq<Atom>| #[trigger] rr.to_set().contains(a) && #[trigger] ss.to_set().contains(b) && agree(a, b, rc, sc) && t == joined(a, b, rc, sc);
        let i = choose|i: int| 0 <= i < rr.len() && rr[i] == a;
        let j = choose|j: int| 0 <= j < ss.len() && ss[j] == b;
        if i == 0 && j == 0 { assert(joined(rr[0], ss[0], rc, sc) =~= e[0]);
        } else if i == 0 && j == 1 { assert("1"@[0] != "2"@[0]); assert(pick(rr[0], seq![0usize, 2usize])[0] != pick(ss[1], seq![1usize, 0usize])[0]);
        } else if i == 0 && j == 2 { assert("1"@[0] != "2"@[0]); assert(pick(rr[0], seq![0usize, 2usize])[0] != pick(ss[2], seq![1usize, 0usize])[0]);
        } else if i == 1 && j == 0 { assert("e"@[0] != "d"@[0]); assert(pick(rr[1], seq![0usize, 2usize])[1] != pick(ss[0], seq![1usize, 0usize])[1]);
        } else if i == 1 && j == 1 { assert("1"@[0] != "2"@[0]); assert(pick(rr[1], seq![0usize, 2usize])[0] != pick(ss[1], seq![1usize, 0usize])[0]);
        } else if i == 1 && j == 2 { assert("1"@[0] != "2"@[0]); assert(pick(rr[1], seq![0usize, 2usize])[0] != pick(ss[2], seq![1usize, 0usize])[0]);
        } else if i == 2 && j == 0 { assert("2"@[0] != "1"@[0]); assert(pick(rr[2], seq![0usize, 2usize])[0] != pick(ss[0], seq![1usize, 0usize])[0]);
        } else if i == 2 && j == 1 { assert(joined(rr[2], ss[1], rc, sc) =~= e[1]);
        } else if i == 2 && j == 2 { assert("d"@[0] != "e"@[0]); assert(pick(rr[2], seq![0usize, 2usize])[1] != pick(ss[2], seq![1usize, 0usize])[1]);
        } else if i == 3 && j == 0 { assert("2"@[0] != "1"@[0]); assert(pick(rr[3], seq![0usize, 2usize])[0] != pick(ss[0], seq![1usize, 0usize])[0]);
        } else if i == 3 && j == 1 { assert("e"@[0] != "d"@[0]); assert(pick(rr[3], seq![0usize, 2usize])[1] != pick(ss[1], seq![1usize, 0usize])[1]);
        } else if i == 3 && j == 2 { assert(joined(rr[3], ss[2], rc, sc) =~= e[2]);
        } else if i == 4 && j == 0 { assert("2"@[0] != "1"@[0]); assert(pick(rr[4], seq![0usize, 2usize])[0] != pick(ss[0], seq![1usize, 0usize])[0]);
        } else if i == 4 && j == 1 { assert(joined(rr[4], ss[1], rc, sc) =~= e[3]);
        } else if i == 4 && j == 2 { assert("d"@[0] != "e"@[0]); assert(pick(rr[4], seq![0usize, 2usize])[1] != pick(ss[2], seq![1usize, 0usize])[1]);
        } else if i == 5 && j == 0 { assert("2"@[0] != "1"@[0]); assert(pick(rr[5], seq![0usize, 2usize])[0] != pick(ss[0], seq![1usize, 0usize])[0]);
        } else if i == 5 && j == 1 { assert("e"@[0] != "d"@[0]); assert(pick(rr[5], seq![0usize, 2usize])[1] != pick(ss[1], seq![1usize, 0usize])[1]);
        } else if i == 5 && j == 2 { assert(joined(rr[5], ss[2], rc, sc) =~= e[4]);
        }
    }
    assert forall|t: Seq<Atom>| #[trigger] e.to_set().contains(t) implies jb.contains(t) by {
        let m = choose|m: int| 0 <= m < e.len() && e[m] == t;
        if m == 0 { assert(rr.to_set().contains(rr[0]) && ss.to_set().contains(ss[0])); assert(pick(rr[0], seq![0usize, 2usize]) =~= pick(ss[0], seq![1usize, 0usize])); assert(joined(rr[0], ss[0], rc, sc) =~= t);
        } else if m == 1 { assert(rr.to_set().contains(rr[2]) && ss.to_set().contains(ss[1])); assert(pick(rr[2], seq![0usize, 2usize]) =~= pick(ss[1], seq![1usize, 0usize])); assert(joined(rr[2], ss[1], rc, sc) =~= t);
        } else if m == 2 { assert(rr.to_set().contains(rr[3]) && ss.to_set().contains(ss[2])); assert(pick(rr[3], seq![0usize, 2usize]) =~= pick(ss[2], seq![1usize, 0usize])); assert(joined(rr[3], ss[2], rc, sc) =~= t);
        } else if m == 3 { assert(rr.to_set().contains(rr[4]) && ss.to_set().contains(ss[1])); assert(pick(rr[4], seq![0usize, 2usize]) =~= pick(ss[1], seq![1usize, 0usize])); assert(joined(rr[4], ss[1], rc, sc) =~= t);
        } else if m == 4 { assert(rr.to_set().contains(rr[5]) && ss.to_set().contains(ss[2])); assert(pick(rr[5], seq![0usize, 2usize]) =~= pick(ss[2], seq![1usize, 0usize])); assert(joined(rr[5], ss[2], rc, sc) =~= t);
        }
    }
    assert(jb =~= e.to_set());
}
/// Figure 9: projecting U' onto columns [0, 1] gives R of figure 8.
pub proof fn figure_9_projection_sp()
    ensures
        pick(seq!["s"@, "p"@, "j"@], seq![0usize, 1usize]) == seq!["s"@, "p"@],
        project_body(seq![seq![text("1"), text("a"), text("d")], seq![text("2"), text("a"), text("d")], seq![text("2"), text("a"), text("e")], seq![text("2"), text("b"), text("d")], seq![text("2"), text("b"), text("e")]].to_set(), seq![0usize, 1usize]) == fig8_r_rows().to_set(),
{
    let rows = seq![seq![text("1"), text("a"), text("d")], seq![text("2"), text("a"), text("d")], seq![text("2"), text("a"), text("e")], seq![text("2"), text("b"), text("d")], seq![text("2"), text("b"), text("e")]];
    let m = rows.map_values(projector(seq![0usize, 1usize]));
    let e = fig8_r_rows();
    assert(m =~~= seq![seq![text("1"), text("a")], seq![text("2"), text("a")], seq![text("2"), text("a")], seq![text("2"), text("b")], seq![text("2"), text("b")]]);
    assert(e =~~= seq![seq![text("1"), text("a")], seq![text("2"), text("a")], seq![text("2"), text("b")]]);
    assert(pick(seq!["s"@, "p"@, "j"@], seq![0usize, 1usize]) =~= seq!["s"@, "p"@]);
    assert forall|x: Seq<Atom>| #[trigger] m.to_set().contains(x) implies e.to_set().contains(x) by {
        let i = choose|i: int| 0 <= i < m.len() && m[i] == x;
        if i == 0 { assert(e[0] == x);
        } else if i == 1 { assert(e[1] == x);
        } else if i == 2 { assert(e[1] == x);
        } else if i == 3 { assert(e[2] == x);
        } else if i == 4 { assert(e[2] == x);
        }
    }
    assert forall|x: Seq<Atom>| #[trigger] e.to_set().contains(x) implies m.to_set().contains(x) by {
        let i = choose|i: int| 0 <= i < e.len() && e[i] == x;
        if i == 0 { assert(m[0] == x);
        } else if i == 1 { assert(m[1] == x);
        } else if i == 2 { assert(m[3] == x);
        }
    }
    assert(m.to_set() =~= e.to_set());
    lemma_project_listing(rows, seq![0usize, 1usize]);
}

/// Figure 9: projecting U' onto columns [1, 2] gives S of figure 8.
pub proof fn figure_9_projection_pj()
    ensures
        pick(seq!["s"@, "p"@, "j"@], seq![1usize, 2usize]) == seq!["p"@, "j"@],
        project_body(seq![seq![text("1"), text("a"), text("d")], seq![text("2"), text("a"), text("d")], seq![text("2"), text("a"), text("e")], seq![text("2"), text("b"), text("d")], seq![text("2"), text("b"), text("e")]].to_set(), seq![1usize, 2usize]) == fig8_s_rows().to_set(),
{
    let rows = seq![seq![text("1"), text("a"), text("d")], seq![text("2"), text("a"), text("d")], seq![text("2"), text("a"), text("e")], seq![text("2"), text("b"), text("d")], seq![text("2"), text("b"), text("e")]];
    let m = rows.map_values(projector(seq![1usize, 2usize]));
    let e = fig8_s_rows();
    assert(m =~~= seq![seq![text("a"), text("d")], seq![text("a"), text("d")], seq![text("a"), text("e")], seq![text("b"), text("d")], seq![text("b"), text("e")]]);
    assert(e =~~= seq![seq![text("a"), text("d")], seq![text("a"), text("e")], seq![text("b"), text("d")], seq![text("b"), text("e")]]);
    assert(pick(seq!["s"@, "p"@, "j"@], seq![1usize, 2usize]) =~= seq!["p"@, "j"@]);
    assert forall|x: Seq<Atom>| #[trigger] m.to_set().contains(x) implies e.to_set().contains(x) by {
        let i = choose|i: int| 0 <= i < m.len() && m[i] == x;
        if i == 0 { assert(e[0] == x);
        } else if i == 1 { assert(e[0] == x);
        } else if i == 2 { assert(e[1] == x);
        } else if i == 3 { assert(e[2] == x);
        } else if i == 4 { assert(e[3] == x);
        }
    }
    assert forall|x: Seq<Atom>| #[trigger] e.to_set().contains(x) implies m.to_set().contains(x) by {
        let i = choose|i: int| 0 <= i < e.len() && e[i] == x;
        if i == 0 { assert(m[0] == x);
        } else if i == 1 { assert(m[2] == x);
        } else if i == 2 { assert(m[3] == x);
        } else if i == 3 { assert(m[4] == x);
        }
    }
    assert(m.to_set() =~= e.to_set());
    lemma_project_listing(rows, seq![1usize, 2usize]);
}

/// Figure 9: projecting U' onto columns [2, 0] gives T of figure 8.
pub proof fn figure_9_projection_js()
    ensures
        pick(seq!["s"@, "p"@, "j"@], seq![2usize, 0usize]) == seq!["j"@, "s"@],
        project_body(seq![seq![text("1"), text("a"), text("d")], seq![text("2"), text("a"), text("d")], seq![text("2"), text("a"), text("e")], seq![text("2"), text("b"), text("d")], seq![text("2"), text("b"), text("e")]].to_set(), seq![2usize, 0usize]) == fig8_t_rows().to_set(),
{
    let rows = seq![seq![text("1"), text("a"), text("d")], seq![text("2"), text("a"), text("d")], seq![text("2"), text("a"), text("e")], seq![text("2"), text("b"), text("d")], seq![text("2"), text("b"), text("e")]];
    let m = rows.map_values(projector(seq![2usize, 0usize]));
    let e = fig8_t_rows();
    assert(m =~~= seq![seq![text("d"), text("1")], seq![text("d"), text("2")], seq![text("e"), text("2")], seq![text("d"), text("2")], seq![text("e"), text("2")]]);
    assert(e =~~= seq![seq![text("d"), text("1")], seq![text("d"), text("2")], seq![text("e"), text("2")]]);
    assert(pick(seq!["s"@, "p"@, "j"@], seq![2usize, 0usize]) =~= seq!["j"@, "s"@]);
    assert forall|x: Seq<Atom>| #[trigger] m.to_set().contains(x) implies e.to_set().contains(x) by {
        let i = choose|i: int| 0 <= i < m.len() && m[i] == x;
        if i == 0 { assert(e[0] == x);
        } else if i == 1 { assert(e[1] == x);
        } else if i == 2 { assert(e[2] == x);
        } else if i == 3 { assert(e[1] == x);
        } else if i == 4 { assert(e[2] == x);
        }
    }
    assert forall|x: Seq<Atom>| #[trigger] e.to_set().contains(x) implies m.to_set().contains(x) by {
        let i = choose|i: int| 0 <= i < e.len() && e[i] == x;
        if i == 0 { assert(m[0] == x);
        } else if i == 1 { assert(m[1] == x);
        } else if i == 2 { assert(m[2] == x);
        }
    }
    assert(m.to_set() =~= e.to_set());
    lemma_project_listing(rows, seq![2usize, 0usize]);
}

/// Figure 10: the natural composition of R and S of figure 5.
pub proof fn figure_10_natural_composition()
    ensures
        pick(join_heading(seq!["supplier"@, "part"@], seq!["part"@, "project"@]), composition_positions(seq!["supplier"@, "part"@], seq!["part"@, "project"@])) == seq!["supplier"@, "project"@],
        project_body(
            join_body(fig5_r_rows().to_set(), fig5_s_rows().to_set(), seq!["supplier"@, "part"@], seq!["part"@, "project"@]),
            composition_positions(seq!["supplier"@, "part"@], seq!["part"@, "project"@]),
        ) == seq![seq![num(1), num(1)], seq![num(1), num(2)], seq![num(2), num(1)], seq![num(2), num(2)]].to_set(),
{
    reveal_strlit("part");
    reveal_strlit("project");
    reveal_strlit("supplier");
    let rc = seq!["supplier"@, "part"@];
    let sc = seq!["part"@, "project"@];
    assert(common_columns(rc, sc, 0) == (Seq::<usize>::empty(), Seq::<usize>::empty()));
    assert(first_match(rc[0], sc, Seq::<usize>::empty(), 2) is None);
    assert("project"@.len() != "supplier"@.len()); assert(first_match(rc[0], sc, Seq::<usize>::empty(), 1) is None);
    assert("part"@.len() != "supplier"@.len()); assert(first_match(rc[0], sc, Seq::<usize>::empty(), 0) is None);
    assert(common_columns(rc, sc, 1) == (Seq::<usize>::empty(), Seq::<usize>::empty()));
    assert(first_match(rc[1], sc, Seq::<usize>::empty(), 2) is None);
    assert("project"@.len() != "part"@.len()); assert(first_match(rc[1], sc, Seq::<usize>::empty(), 1) is None);
    assert(first_match(rc[1], sc, Seq::<usize>::empty(), 0) == Some(0usize));
    assert(common_columns(rc, sc, 2) == (seq![1usize], seq![0usize]));
    assert(unused_below(0, seq![0usize]) == Seq::<usize>::empty());
    assert(unused_below(1, seq![0usize]) == Seq::<usize>::empty());
    assert(unused_below(2, seq![0usize]) == seq![1usize]);
    assert(r_common(rc, sc) == seq![1usize]);
    assert(s_common(rc, sc) == seq![0usize]);
    assert(s_extra(rc, sc) == seq![1usize]);
    assert(join_heading(rc, sc) =~= seq!["supplier"@, "part"@, "project"@]);
    let rr = fig5_r_rows();
    let ss = fig5_s_rows();
    let e = seq![seq![num(1), num(1), num(1)], seq![num(1), num(1), num(2)], seq![num(2), num(1), num(1)], seq![num(2), num(1), num(2)], seq![num(2), num(2), num(1)]];
    assert(rr =~~= seq![seq![num(1), num(1)], seq![num(2), num(1)], seq![num(2), num(2)]]);
    assert(ss =~~= seq![seq![num(1), num(1)], seq![num(1), num(2)], seq![num(2), num(1)]]);
    let jb = join_body(rr.to_set(), ss.to_set(), rc, sc);
    assert forall|t: Seq<Atom>| #[trigger] jb.contains(t) implies e.to_set().contains(t) by {
        let (a, b) = choose|a: Seq<Atom>, b: Seq<Atom>| #[trigger] rr.to_set().contains(a) && #[trigger] ss.to_set().contains(b) && agree(a, b, rc, sc) && t == joined(a, b, rc, sc);
        let i = choose|i: int| 0 <= i < rr.len() && rr[i] == a;
        let j = choose|j: int| 0 <= j < ss.len() && ss[j] == b;
        if i == 0 && j == 0 { assert(joined(rr[0], ss[0], rc, sc) =~= e[0]);
        } else if i == 0 && j == 1 { assert(joined(rr[0], ss[1], rc, sc) =~= e[1]);
        } else if i == 0 && j == 2 {  assert(pick(rr[0], seq![1usize])[0] != pick(ss[2], seq![0usize])[0]);
        } else if i == 1 && j == 0 { assert(joined(rr[1], ss[0], rc, sc) =~= e[2]);
        } else if i == 1 && j == 1 { assert(joined(rr[1], ss[1], rc, sc) =~= e[3]);
        } else if i == 1 && j == 2 {  assert(pick(rr[1], seq![1usize])[0] != pick(ss[2], seq![0usize])[0]);
        } else if i == 2 && j == 0 {  assert(pick(rr[2], seq![1usize])[0] != pick(ss[0], seq![0usize])[0]);
        } else if i == 2 && j == 1 {  assert(pick(rr[2], seq![1usize])[0] != pick(ss[1], seq![0usize])[0]);
        } else if i == 2 && j == 2 { assert(joined(rr[2], ss[2], rc, sc) =~= e[4]);
        }
    }
    assert forall|t: Seq<Atom>| #[trigger] e.to_set().contains(t) implies jb.contains(t) by {
        let m = choose|m: int| 0 <= m < e.len() && e[m] == t;
        if m == 0 { assert(rr.to_set().contains(rr[0]) && ss.to_set().contains(ss[0])); assert(pick(rr[0], seq![1usize]) =~= pick(ss[0], seq![0usize])); assert(joined(rr[0], ss[0], rc, sc) =~= t);
        } else if m == 1 { assert(rr.to_set().contains(rr[0]) && ss.to_set().contains(ss[1])); assert(pick(rr[0], seq![1usize]) =~= pick(ss[1], seq![0usize])); assert(joined(rr[0], ss[1], rc, sc) =~= t);
        } else if m == 2 { assert(rr.to_set().contains(rr[1]) && ss.to_set().contains(ss[0])); assert(pick(rr[1], seq![1usize]) =~= pick(ss[0], seq![0usize])); assert(joined(rr[1], ss[0], rc, sc) =~= t);
        } else if m == 3 { assert(rr.to_set().contains(rr[1]) && ss.to_set().contains(ss[1])); assert(pick(rr[1], seq![1usize]) =~= pick(ss[1], seq![0usize])); assert(joined(rr[1], ss[1], rc, sc) =~= t);
        } else if m == 4 { assert(rr.to_set().contains(rr[2]) && ss.to_set().contains(ss[2])); assert(pick(rr[2], seq![1usize]) =~= pick(ss[2], seq![0usize])); assert(joined(rr[2], ss[2], rc, sc) =~= t);
        }
    }
    assert(jb =~= e.to_set());
    assert(shared_names(rc, sc, 0) == Seq::<Seq<char>>::empty());
    assert("part"@.len() != "supplier"@.len());
    assert("project"@.len() != "supplier"@.len());
    assert(!sc.contains(rc[0]));
    assert(shared_names(rc, sc, 1) == Seq::<Seq<char>>::empty());
    assert(sc[0] == rc[1]);
    assert(shared_names(rc, sc, 2) == seq!["part"@]);
    let jh = seq!["supplier"@, "part"@, "project"@];
    assert(positions_not_named(jh, seq!["part"@], 0) == Seq::<usize>::empty());
    assert("part"@.len() != "supplier"@.len());
    assert(!seq!["part"@].contains(jh[0]));
    assert(positions_not_named(jh, seq!["part"@], 1) == seq![0usize]);
    assert(seq!["part"@][0] == jh[1]);
    assert(positions_not_named(jh, seq!["part"@], 2) == seq![0usize]);
    assert("part"@.len() != "project"@.len());
    assert(!seq!["part"@].contains(jh[2]));
    assert(positions_not_named(jh, seq!["part"@], 3) == seq![0usize, 2usize]);
    assert(composition_positions(rc, sc) == seq![0usize, 2usize]);
    assert(pick(jh, seq![0usize, 2usize]) =~= seq!["supplier"@, "project"@]);
    let pm = e.map_values(projector(seq![0usize, 2usize]));
    let want = seq![seq![num(1), num(1)], seq![num(1), num(2)], seq![num(2), num(1)], seq![num(2), num(2)]];
    assert(pm =~~= seq![seq![num(1), num(1)], seq![num(1), num(2)], seq![num(2), num(1)], seq![num(2), num(2)], seq![num(2), num(1)]]);
    assert forall|x: Seq<Atom>| #[trigger] pm.to_set().contains(x) implies want.to_set().contains(x) by {
        let i = choose|i: int| 0 <= i < pm.len() && pm[i] == x;
        if i == 0 { assert(want[0] == x);
        } else if i == 1 { assert(want[1] == x);
        } else if i == 2 { assert(want[2] == x);
        } else if i == 3 { assert(want[3] == x);
        } else if i == 4 { assert(want[2] == x);
        }
    }
    assert forall|x: Seq<Atom>| #[trigger] want.to_set().contains(x) implies pm.to_set().contains(x) by {
        let i = choose|i: int| 0 <= i < want.len() && want[i] == x;
        if i == 0 { assert(pm[0] == x);
        } else if i == 1 { assert(pm[1] == x);
        } else if i == 2 { assert(pm[2] == x);
        } else if i == 3 { assert(pm[3] == x);
        }
    }
    assert(pm.to_set() =~= want.to_set());
    lemma_project_listing(e, seq![0usize, 2usize]);
}

/// Figure 12: the natural join of R and S of figure 12 holds eight tuples.
pub proof fn figure_12_natural_join()
    ensures
        join_heading(seq!["supplier"@, "part"@], seq!["part"@, "project"@]) == seq!["supplier"@, "part"@, "project"@],
        join_body(fig12_r_rows().to_set(), fig12_s_rows().to_set(), seq!["supplier"@, "part"@], seq!["part"@, "project"@]) == seq![seq![text("1"), text("a"), text("g")], seq![text("1"), text("b"), text("f")], seq![text("1"), text("c"), text("f")], seq![text("1"), text("c"), text("g")], seq![text("2"), text("c"), text("f")], seq![text("2"), text("c"), text("g")], seq![text("2"), text("d"), text("g")], seq![text("2"), text("e"), text("f")]].to_set(),
{
    reveal_strlit("1");
    reveal_strlit("2");
    reveal_strlit("a");
    reveal_strlit("b");
    reveal_strlit("c");
    reveal_strlit("d");
    reveal_strlit("e");
    reveal_strlit("f");
    reveal_strlit("g");
    reveal_strlit("part");
    reveal_strlit("project");
    reveal_strlit("supplier");
    let rc = seq!["supplier"@, "part"@];
    let sc = seq!["part"@, "project"@];
    assert(common_columns(rc, sc, 0) == (Seq::<usize>::empty(), Seq::<usize>::empty()));
    assert(first_match(rc[0], sc, Seq::<usize>::empty(), 2) is None);
    assert("project"@.len() != "supplier"@.len()); assert(first_match(rc[0], sc, Seq::<usize>::empty(), 1) is None);
    assert("part"@.len() != "supplier"@.len()); assert(first_match(rc[0], sc, Seq::<usize>::empty(), 0) is None);
    assert(common_columns(rc, sc, 1) == (Seq::<usize>::empty(), Seq::<usize>::empty()));
    assert(first_match(rc[1], sc, Seq::<usize>::empty(), 2) is None);
    assert("project"@.len() != "part"@.len()); assert(first_match(rc[1], sc, Seq::<usize>::empty(), 1) is None);
    assert(first_match(rc[1], sc, Seq::<usize>::empty(), 0) == Some(0usize));
    assert(common_columns(rc, sc, 2) == (seq![1usize], seq![0usize]));
    assert(unused_below(0, seq![0usize]) == Seq::<usize>::empty());
    assert(unused_below(1, seq![0usize]) == Seq::<usize>::empty());
    assert(unused_below(2, seq![0usize]) == seq![1usize]);
    assert(r_common(rc, sc) == seq![1usize]);
    assert(s_common(rc, sc) == seq![0usize]);
    assert(s_extra(rc, sc) == seq![1usize]);
    assert(join_heading(rc, sc) =~= seq!["supplier"@, "part"@, "project"@]);
    let rr = fig12_r_rows();
    let ss = fig12_s_rows();
    let e = seq![seq![text("1"), text("a"), text("g")], seq![text("1"), text("b"), text("f")], seq![text("1"), text("c"), text("f")], seq![text("1"), text("c"), text("g")], seq![text("2"), text("c"), text("f")], seq![text("2"), text("c"), text("g")], seq![text("2"), text("d"), text("g")], seq![text("2"), text("e"), text("f")]];
    assert(rr =~~= seq![seq![text("1"), text("a")], seq![text("1"), text("b")], seq![text("1"), text("c")], seq![text("2"), text("c")], seq![text("2"), text("d")], seq![text("2"), text("e")]]);
    assert(ss =~~= seq![seq![text("a"), text("g")], seq![text("b"), text("f")], seq![text("c"), text("f")], seq![text("c"), text("g")], seq![text("d"), text("g")], seq![text("e"), text("f")]]);
    let jb = join_body(rr.to_set(), ss.to_set(), rc, sc);
    assert forall|t: Seq<Atom>| #[trigger] jb.contains(t) implies e.to_set().contains(t) by {
        let (a, b) = choose|a: Seq<Atom>, b: Seq<Atom>| #[trigger] rr.to_set().contains(a) && #[trigger] ss.to_set().contains(b) && agree(a, b, rc, sc) && t == joined(a, b, rc, sc);
        let i = choose|i: int| 0 <= i < rr.len() && rr[i] == a;
        let j = choose|j: int| 0 <= j < ss.len() && ss[j] == b;
        if i == 0 && j == 0 { assert(joined(rr[0], ss[0], rc, sc) =~= e[0]);
        } else if i == 0 && j == 1 { assert("a"@[0] != "b"@[0]); assert(pick(rr[0], seq![1usize])[0] != pick(ss[1], seq![0usize])[0]);
        } else if i == 0 && j == 2 { assert("a"@[0] != "c"@[0]); assert(pick(rr[0], seq![1usize])[0] != pick(ss[2], seq![0usize])[0]);
        } else if i == 0 && j == 3 { assert("a"@[0] != "c"@[0]); assert(pick(rr[0], seq![1usize])[0] != pick(ss[3], seq![0usize])[0]);
        } else if i == 0 && j == 4 { assert("a"@[0] != "d"@[0]); assert(pick(rr[0], seq![1usize])[0] != pick(ss[4], seq![0usize])[0]);
        } else if i == 0 && j == 5 { assert("a"@[0] != "e"@[0]); assert(pick(rr[0], seq![1usize])[0] != pick(ss[5], seq![0usize])[0]);
        } else if i == 1 && j == 0 { assert("b"@[0] != "a"@[0]); assert(pick(rr[1], seq![1usize])[0] != pick(ss[0], seq![0usize])[0]);
        } else if i == 1 && j == 1 { assert(joined(rr[1], ss[1], rc, sc) =~= e[1]);
        } else if i == 1 && j == 2 { assert("b"@[0] != "c"@[0]); assert(pick(rr[1], seq![1usize])[0] != pick(ss[2], seq![0usize])[0]);
        } else if i == 1 && j == 3 { assert("b"@[0] != "c"@[0]); assert(pick(rr[1], seq![1usize])[0] != pick(ss[3], seq![0usize])[0]);
        } else if i == 1 && j == 4 { assert("b"@[0] != "d"@[0]); assert(pick(rr[1], seq![1usize])[0] != pick(ss[4], seq![0usize])[0]);
        } else if i == 1 && j == 5 { assert("b"@[0] != "e"@[0]); assert(pick(rr[1], seq![1usize])[0] != pick(ss[5], seq![0usize])[0]);
        } else if i == 2 && j == 0 { assert("c"@[0] != "a"@[0]); assert(pick(rr[2], seq![1usize])[0] != pick(ss[0], seq![0usize])[0]);
        } else if i == 2 && j == 1 { assert("c"@[0] != "b"@[0]); assert(pick(rr[2], seq![1usize])[0] != pick(ss[1], seq![0usize])[0]);
        } else if i == 2 && j == 2 { assert(joined(rr[2], ss[2], rc, sc) =~= e[2]);
        } else if i == 2 && j == 3 { assert(joined(rr[2], ss[3], rc, sc) =~= e[3]);
        } else if i == 2 && j == 4 { assert("c"@[0] != "d"@[0]); assert(pick(rr[2], seq![1usize])[0] != pick(ss[4], seq![0usize])[0]);
        } else if i == 2 && j == 5 { assert("c"@[0] != "e"@[0]); assert(pick(rr[2], seq![1usize])[0] != pick(ss[5], seq![0usize])[0]);
        } else if i == 3 && j == 0 { assert("c"@[0] != "a"@[0]); assert(pick(rr[3], seq![1usize])[0] != pick(ss[0], seq![0usize])[0]);
        } else if i == 3 && j == 1 { assert("c"@[0] != "b"@[0]); assert(pick(rr[3], seq![1usize])[0] != pick(ss[1], seq![0usize])[0]);
        } else if i == 3 && j == 2 { assert(joined(rr[3], ss[2], rc, sc) =~= e[4]);
        } else if i == 3 && j == 3 { assert(joined(rr[3], ss[3], rc, sc) =~= e[5]);
        } else if i == 3 && j == 4 { assert("c"@[0] != "d"@[0]); assert(pick(rr[3], seq![1usize])[0] != pick(ss[4], seq![0usize])[0]);
        } else if i == 3 && j == 5 { assert("c"@[0] != "e"@[0]); assert(pick(rr[3], seq![1usize])[0] != pick(ss[5], seq![0usize])[0]);
        } else if i == 4 && j == 0 { assert("d"@[0] != "a"@[0]); assert(pick(rr[4], seq![1usize])[0] != pick(ss[0], seq![0usize])[0]);
        } else if i == 4 && j == 1 { assert("d"@[0] != "b"@[0]); assert(pick(rr[4], seq![1usize])[0] != pick(ss[1], seq![0usize])[0]);
        } else if i == 4 && j == 2 { assert("d"@[0] != "c"@[0]); assert(pick(rr[4], seq![1usize])[0] != pick(ss[2], seq![0usize])[0]);
        } else if i == 4 && j == 3 { assert("d"@[0] != "c"@[0]); assert(pick(rr[4], seq![1usize])[0] != pick(ss[3], seq![0usize])[0]);
        } else if i == 4 && j == 4 { assert(joined(rr[4], ss[4], rc, sc) =~= e[6]);
        } else if i == 4 && j == 5 { assert("d"@[0] != "e"@[0]); assert(pick(rr[4], seq![1usize])[0] != pick(ss[5], seq![0usize])[0]);
        } else if i == 5 && j == 0 { assert("e"@[0] != "a"@[0]); assert(pick(rr[5], seq![1usize])[0] != pick(ss[0], seq![0usize])[0]);
        } else if i == 5 && j == 1 { assert("e"@[0] != "b"@[0]); assert(pick(rr[5], seq![1usize])[0] != pick(ss[1], seq![0usize])[0]);
        } else if i == 5 && j == 2 { assert("e"@[0] != "c"@[0]); assert(pick(rr[5], seq![1usize])[0] != pick(ss[2], seq![0usize])[0]);
        } else if i == 5 && j == 3 { assert("e"@[0] != "c"@[0]); assert(pick(rr[5], seq![1usize])[0] != pick(ss[3], seq![0usize])[0]);
        } else if i == 5 && j == 4 { assert("e"@[0] != "d"@[0]); assert(pick(rr[5], seq![1usize])[0] != pick(ss[4], seq![0usize])[0]);
        } else if i == 5 && j == 5 { assert(joined(rr[5], ss[5], rc, sc) =~= e[7]);
        }
    }
    assert forall|t: Seq<Atom>| #[trigger] e.to_set().contains(t) implies jb.contains(t) by {
        let m = choose|m: int| 0 <= m < e.len() && e[m] == t;
        if m == 0 { assert(rr.to_set().contains(rr[0]) && ss.to_set().contains(ss[0])); assert(pick(rr[0], seq![1usize]) =~= pick(ss[0], seq![0usize])); assert(joined(rr[0], ss[0], rc, sc) =~= t);
        } else if m == 1 { assert(rr.to_set().contains(rr[1]) && ss.to_set().contains(ss[1])); assert(pick(rr[1], seq![1usize]) =~= pick(ss[1], seq![0usize])); assert(joined(rr[1], ss[1], rc, sc) =~= t);
        } else if m == 2 { assert(rr.to_set().contains(rr[2]) && ss.to_set().contains(ss[2])); assert(pick(rr[2], seq![1usize]) =~= pick(ss[2], seq![0usize])); assert(joined(rr[2], ss[2], rc, sc) =~= t);
        } else if m == 3 { assert(rr.to_set().contains(rr[2]) && ss.to_set().contains(ss[3])); assert(pick(rr[2], seq![1usize]) =~= pick(ss[3], seq![0usize])); assert(joined(rr[2], ss[3], rc, sc) =~= t);
        } else if m == 4 { assert(rr.to_set().contains(rr[3]) && ss.to_set().contains(ss[2])); assert(pick(rr[3], seq![1usize]) =~= pick(ss[2], seq![0usize])); assert(joined(rr[3], ss[2], rc, sc) =~= t);
        } else if m == 5 { assert(rr.to_set().contains(rr[3]) && ss.to_set().contains(ss[3])); assert(pick(rr[3], seq![1usize]) =~= pick(ss[3], seq![0usize])); assert(joined(rr[3], ss[3], rc, sc) =~= t);
        } else if m == 6 { assert(rr.to_set().contains(rr[4]) && ss.to_set().contains(ss[4])); assert(pick(rr[4], seq![1usize]) =~= pick(ss[4], seq![0usize])); assert(joined(rr[4], ss[4], rc, sc) =~= t);
        } else if m == 7 { assert(rr.to_set().contains(rr[5]) && ss.to_set().contains(ss[5])); assert(pick(rr[5], seq![1usize]) =~= pick(ss[5], seq![0usize])); assert(joined(rr[5], ss[5], rc, sc) =~= t);
        }
    }
    assert(jb =~= e.to_set());
}

/// Figure 12: many joins of R and S, but only one composition.
pub proof fn figure_12_composition()
    ensures
        pick(join_heading(seq!["supplier"@, "part"@], seq!["part"@, "project"@]), composition_positions(seq!["supplier"@, "part"@], seq!["part"@, "project"@])) == seq!["supplier"@, "project"@],
        project_body(
            join_body(fig12_r_rows().to_set(), fig12_s_rows().to_set(), seq!["supplier"@, "part"@], seq!["part"@, "project"@]),
            composition_positions(seq!["supplier"@, "part"@], seq!["part"@, "project"@]),
        ) == seq![seq![text("1"), text("f")], seq![text("1"), text("g")], seq![text("2"), text("f")], seq![text("2"), text("g")]].to_set(),
{
    reveal_strlit("1");
    reveal_strlit("2");
    reveal_strlit("a");
    reveal_strlit("b");
    reveal_strlit("c");
    reveal_strlit("d");
    reveal_strlit("e");
    reveal_strlit("f");
    reveal_strlit("g");
    reveal_strlit("part");
    reveal_strlit("project");
    reveal_strlit("supplier");
    let rc = seq!["supplier"@, "part"@];
    let sc = seq!["part"@, "project"@];
    assert(common_columns(rc, sc, 0) == (Seq::<usize>::empty(), Seq::<usize>::empty()));
    assert(first_match(rc[0], sc, Seq::<usize>::empty(), 2) is None);
    assert("project"@.len() != "supplier"@.len()); assert(first_match(rc[0], sc, Seq::<usize>::empty(), 1) is None);
    assert("part"@.len() != "supplier"@.len()); assert(first_match(rc[0], sc, Seq::<usize>::empty(), 0) is None);
    assert(common_columns(rc, sc, 1) == (Seq::<usize>::empty(), Seq::<usize>::empty()));
    assert(first_match(rc[1], sc, Seq::<usize>::empty(), 2) is None);
    assert("project"@.len() != "part"@.len()); assert(first_match(rc[1], sc, Seq::<usize>::empty(), 1) is None);
    assert(first_match(rc[1], sc, Seq::<usize>::empty(), 0) == Some(0usize));
    assert(common_columns(rc, sc, 2) == (seq![1usize], seq![0usize]));
    assert(unused_below(0, seq![0usize]) == Seq::<usize>::empty());
    assert(unused_below(1, seq![0usize]) == Seq::<usize>::empty());
    assert(unused_below(2, seq![0usize]) == seq![1usize]);
    assert(r_common(rc, sc) == seq![1usize]);
    assert(s_common(rc, sc) == seq![0usize]);
    assert(s_extra(rc, sc) == seq![1usize]);
    assert(join_heading(rc, sc) =~= seq!["supplier"@, "part"@, "project"@]);
    let rr = fig12_r_rows();
    let ss = fig12_s_rows();
    let e = seq![seq![text("1"), text("a"), text("g")], seq![text("1"), text("b"), text("f")], seq![text("1"), text("c"), text("f")], seq![text("1"), text("c"), text("g")], seq![text("2"), text("c"), text("f")], seq![text("2"), text("c"), text("g")], seq![text("2"), text("d"), text("g")], seq![text("2"), text("e"), text("f")]];
    assert(rr =~~= seq![seq![text("1"), text("a")], seq![text("1"), text("b")], seq![text("1"), text("c")], seq![text("2"), text("c")], seq![text("2"), text("d")], seq![text("2"), text("e")]]);
    assert(ss =~~= seq![seq![text("a"), text("g")], seq![text("b"), text("f")], seq![text("c"), text("f")], seq![text("c"), text("g")], seq![text("d"), text("g")], seq![text("e"), text("f")]]);
    let jb = join_body(rr.to_set(), ss.to_set(), rc, sc);
    assert forall|t: Seq<Atom>| #[trigger] jb.contains(t) implies e.to_set().contains(t) by {
        let (a, b) = choose|a: Seq<Atom>, b: Seq<Atom>| #[trigger] rr.to_set().contains(a) && #[trigger] ss.to_set().contains(b) && agree(a, b, rc, sc) && t == joined(a, b, rc, sc);
        let i = choose|i: int| 0 <= i < rr.len() && rr[i] == a;
        let j = choose|j: int| 0 <= j < ss.len() && ss[j] == b;
        if i == 0 && j == 0 { assert(joined(rr[0], ss[0], rc, sc) =~= e[0]);
        } else if i == 0 && j == 1 { assert("a"@[0] != "b"@[0]); assert(pick(rr[0], seq![1usize])[0] != pick(ss[1], seq![0usize])[0]);
        } else if i == 0 && j == 2 { assert("a"@[0] != "c"@[0]); assert(pick(rr[0], seq![1usize])[0] != pick(ss[2], seq![0usize])[0]);
        } else if i == 0 && j == 3 { assert("a"@[0] != "c"@[0]); assert(pick(rr[0], seq![1usize])[0] != pick(ss[3], seq![0usize])[0]);
        } else if i == 0 && j == 4 { assert("a"@[0] != "d"@[0]); assert(pick(rr[0], seq![1usize])[0] != pick(ss[4], seq![0usize])[0]);
        } else if i == 0 && j == 5 { assert("a"@[0] != "e"@[0]); assert(pick(rr[0], seq![1usize])[0] != pick(ss[5], seq![0usize])[0]);
        } else if i == 1 && j == 0 { assert("b"@[0] != "a"@[0]); assert(pick(rr[1], seq![1usize])[0] != pick(ss[0], seq![0usize])[0]);
        } else if i == 1 && j == 1 { assert(joined(rr[1], ss[1], rc, sc) =~= e[1]);
        } else if i == 1 && j == 2 { assert("b"@[0] != "c"@[0]); assert(pick(rr[1], seq![1usize])[0] != pick(ss[2], seq![0usize])[0]);
        } else if i == 1 && j == 3 { assert("b"@[0] != "c"@[0]); assert(pick(rr[1], seq![1usize])[0] != pick(ss[3], seq![0usize])[0]);
        } else if i == 1 && j == 4 { assert("b"@[0] != "d"@[0]); assert(pick(rr[1], seq![1usize])[0] != pick(ss[4], seq![0usize])[0]);
        } else if i == 1 && j == 5 { assert("b"@[0] != "e"@[0]); assert(pick(rr[1], seq![1usize])[0] != pick(ss[5], seq![0usize])[0]);
        } else if i == 2 && j == 0 { assert("c"@[0] != "a"@[0]); assert(pick(rr[2], seq![1usize])[0] != pick(ss[0], seq![0usize])[0]);
        } else if i == 2 && j == 1 { assert("c"@[0] != "b"@[0]); assert(pick(rr[2], seq![1usize])[0] != pick(ss[1], seq![0usize])[0]);
        } else if i == 2 && j == 2 { assert(joined(rr[2], ss[2], rc, sc) =~= e[2]);
        } else if i == 2 && j == 3 { assert(joined(rr[2], ss[3], rc, sc) =~= e[3]);
        } else if i == 2 && j == 4 { assert("c"@[0] != "d"@[0]); assert(pick(rr[2], seq![1usize])[0] != pick(ss[4], seq![0usize])[0]);
        } else if i == 2 && j == 5 { assert("c"@[0] != "e"@[0]); assert(pick(rr[2], seq![1usize])[0] != pick(ss[5], seq![0usize])[0]);
        } else if i == 3 && j == 0 { assert("c"@[0] != "a"@[0]); assert(pick(rr[3], seq![1usize])[0] != pick(ss[0], seq![0usize])[0]);
        } else if i == 3 && j == 1 { assert("c"@[0] != "b"@[0]); assert(pick(rr[3], seq![1usize])[0] != pick(ss[1], seq![0usize])[0]);
        } else if i == 3 && j == 2 { assert(joined(rr[3], ss[2], rc, sc) =~= e[4]);
        } else if i == 3 && j == 3 { assert(joined(rr[3], ss[3], rc, sc) =~= e[5]);
        } else if i == 3 && j == 4 { assert("c"@[0] != "d"@[0]); assert(pick(rr[3], seq![1usize])[0] != pick(ss[4], seq![0usize])[0]);
        } else if i == 3 && j == 5 { assert("c"@[0] != "e"@[0]); assert(pick(rr[3], seq![1usize])[0] != pick(ss[5], seq![0usize])[0]);
        } else if i == 4 && j == 0 { assert("d"@[0] != "a"@[0]); assert(pick(rr[4], seq![1usize])[0] != pick(ss[0], seq![0usize])[0]);
        } else if i == 4 && j == 1 { assert("d"@[0] != "b"@[0]); assert(pick(rr[4], seq![1usize])[0] != pick(ss[1], seq![0usize])[0]);
        } else if i == 4 && j == 2 { assert("d"@[0] != "c"@[0]); assert(pick(rr[4], seq![1usize])[0] != pick(ss[2], seq![0usize])[0]);
        } else if i == 4 && j == 3 { assert("d"@[0] != "c"@[0]); assert(pick(rr[4], seq![1usize])[0] != pick(ss[3], seq![0usize])[0]);
        } else if i == 4 && j == 4 { assert(joined(rr[4], ss[4], rc, sc) =~= e[6]);
        } else if i == 4 && j == 5 { assert("d"@[0] != "e"@[0]); assert(pick(rr[4], seq![1usize])[0] != pick(ss[5], seq![0usize])[0]);
        } else if i == 5 && j == 0 { assert("e"@[0] != "a"@[0]); assert(pick(rr[5], seq![1usize])[0] != pick(ss[0], seq![0usize])[0]);
        } else if i == 5 && j == 1 { assert("e"@[0] != "b"@[0]); assert(pick(rr[5], seq![1usize])[0] != pick(ss[1], seq![0usize])[0]);
        } else if i == 5 && j == 2 { assert("e"@[0] != "c"@[0]); assert(pick(rr[5], seq![1usize])[0] != pick(ss[2], seq![0usize])[0]);
        } else if i == 5 && j == 3 { assert("e"@[0] != "c"@[0]); assert(pick(rr[5], seq![1usize])[0] != pick(ss[3], seq![0usize])[0]);
        } else if i == 5 && j == 4 { assert("e"@[0] != "d"@[0]); assert(pick(rr[5], seq![1usize])[0] != pick(ss[4], seq![0usize])[0]);
        } else if i == 5 && j == 5 { assert(joined(rr[5], ss[5], rc, sc) =~= e[7]);
        }
    }
    assert forall|t: Seq<Atom>| #[trigger] e.to_set().contains(t) implies jb.contains(t) by {
        let m = choose|m: int| 0 <= m < e.len() && e[m] == t;
        if m == 0 { assert(rr.to_set().contains(rr[0]) && ss.to_set().contains(ss[0])); assert(pick(rr[0], seq![1usize]) =~= pick(ss[0], seq![0usize])); assert(joined(rr[0], ss[0], rc, sc) =~= t);
        } else if m == 1 { assert(rr.to_set().contains(rr[1]) && ss.to_set().contains(ss[1])); assert(pick(rr[1], seq![1usize]) =~= pick(ss[1], seq![0usize])); assert(joined(rr[1], ss[1], rc, sc) =~= t);
        } else if m == 2 { assert(rr.to_set().contains(rr[2]) && ss.to_set().contains(ss[2])); assert(pick(rr[2], seq![1usize]) =~= pick(ss[2], seq![0usize])); assert(joined(rr[2], ss[2], rc, sc) =~= t);
        } else if m == 3 { assert(rr.to_set().contains(rr[2]) && ss.to_set().contains(ss[3])); assert(pick(rr[2], seq![1usize]) =~= pick(ss[3], seq![0usize])); assert(joined(rr[2], ss[3], rc, sc) =~= t);
        } else if m == 4 { assert(rr.to_set().contains(rr[3]) && ss.to_set().contains(ss[2])); assert(pick(rr[3], seq![1usize]) =~= pick(ss[2], seq![0usize])); assert(joined(rr[3], ss[2], rc, sc) =~= t);
        } else if m == 5 { assert(rr.to_set().contains(rr[3]) && ss.to_set().contains(ss[3])); assert(pick(rr[3], seq![1usize]) =~= pick(ss[3], seq![0usize])); assert(joined(rr[3], ss[3], rc, sc) =~= t);
        } else if m == 6 { assert(rr.to_set().contains(rr[4]) && ss.to_set().contains(ss[4])); assert(pick(rr[4], seq![1usize]) =~= pick(ss[4], seq![0usize])); assert(joined(rr[4], ss[4], rc, sc) =~= t);
        } else if m == 7 { assert(rr.to_set().contains(rr[5]) && ss.to_set().contains(ss[5])); assert(pick(rr[5], seq![1usize]) =~= pick(ss[5], seq![0usize])); assert(joined(rr[5], ss[5], rc, sc) =~= t);
        }
    }
    assert(jb =~= e.to_set());
    assert(shared_names(rc, sc, 0) == Seq::<Seq<char>>::empty());
    assert("part"@.len() != "supplier"@.len());
    assert("project"@.len() != "supplier"@.len());
    assert(!sc.contains(rc[0]));
    assert(shared_names(rc, sc, 1) == Seq::<Seq<char>>::empty());
    assert(sc[0] == rc[1]);
    assert(shared_names(rc, sc, 2) == seq!["part"@]);
    let jh = seq!["supplier"@, "part"@, "project"@];
    assert(positions_not_named(jh, seq!["part"@], 0) == Seq::<usize>::empty());
    assert("part"@.len() != "supplier"@.len());
    assert(!seq!["part"@].contains(jh[0]));
    assert(positions_not_named(jh, seq!["part"@], 1) == seq![0usize]);
    assert(seq!["part"@][0] == jh[1]);
    assert(positions_not_named(jh, seq!["part"@], 2) == seq![0usize]);
    assert("part"@.len() != "project"@.len());
    assert(!seq!["part"@].contains(jh[2]));
    assert(positions_not_named(jh, seq!["part"@], 3) == seq![0usize, 2usize]);
    assert(composition_positions(rc, sc) == seq![0usize, 2usize]);
    assert(pick(jh, seq![0usize, 2usize]) =~= seq!["supplier"@, "project"@]);
    let pm = e.map_values(projector(seq![0usize, 2usize]));
    let want = seq![seq![text("1"), text("f")], seq![text("1"), text("g")], seq![text("2"), text("f")], seq![text("2"), text("g")]];
    assert(pm =~~= seq![seq![text("1"), text("g")], seq![text("1"), text("f")], seq![text("1"), text("f")], seq![text("1"), text("g")], seq![text("2"), text("f")], seq![text("2"), text("g")], seq![text("2"), text("g")], seq![text("2"), text("f")]]);
    assert forall|x: Seq<Atom>| #[trigger] pm.to_set().contains(x) implies want.to_set().contains(x) by {
        let i = choose|i: int| 0 <= i < pm.len() && pm[i] == x;
        if i == 0 { assert(want[1] == x);
        } else if i == 1 { assert(want[0] == x);
        } else if i == 2 { assert(want[0] == x);
        } else if i == 3 { assert(want[1] == x);
        } else if i == 4 { assert(want[2] == x);
        } else if i == 5 { assert(want[3] == x);
        } else if i == 6 { assert(want[3] == x);
        } else if i == 7 { assert(want[2] == x);
        }
    }
    assert forall|x: Seq<Atom>| #[trigger] want.to_set().contains(x) implies pm.to_set().contains(x) by {
        let i = choose|i: int| 0 <= i < want.len() && want[i] == x;
        if i == 0 { assert(pm[1] == x);
        } else if i == 1 { assert(pm[0] == x);
        } else if i == 2 { assert(pm[4] == x);
        } else if i == 3 { assert(pm[5] == x);
        }
    }
    assert(pm.to_set() =~= want.to_set());
    lemma_project_listing(e, seq![0usize, 2usize]);
}

/// Figure 13: the restriction R' of R by S on (p, j).
pub proof fn figure_13_restriction()
    ensures
        restrict_body(fig13_r_rows().to_set(), fig13_s_rows().to_set(), seq![1usize, 2usize], seq![0usize, 1usize]) == seq![seq![text("1"), text("a"), text("A")], seq![text("2"), text("a"), text("A")], seq![text("2"), text("b"), text("B")]].to_set(),
{
    reveal_strlit("1");
    reveal_strlit("2");
    reveal_strlit("A");
    reveal_strlit("B");
    reveal_strlit("a");
    reveal_strlit("b");
    reveal_strlit("c");
    let rr = fig13_r_rows();
    let ss = fig13_s_rows();
    let e = seq![seq![text("1"), text("a"), text("A")], seq![text("2"), text("a"), text("A")], seq![text("2"), text("b"), text("B")]];
    assert(rr =~~= seq![seq![text("1"), text("a"), text("A")], seq![text("2"), text("a"), text("A")], seq![text("2"), text("a"), text("B")], seq![text("2"), text("b"), text("A")], seq![text("2"), text("b"), text("B")]]);
    assert(ss =~~= seq![seq![text("a"), text("A")], seq![text("c"), text("B")], seq![text("b"), text("B")]]);
    let rb = restrict_body(rr.to_set(), ss.to_set(), seq![1usize, 2usize], seq![0usize, 1usize]);
    assert forall|t: Seq<Atom>| #[trigger] rb.contains(t) implies e.to_set().contains(t) by {
        let i = choose|i: int| 0 <= i < rr.len() && rr[i] == t;
        let b = choose|b: Seq<Atom>| #[trigger] ss.to_set().contains(b) && pick(b, seq![0usize, 1usize]) == pick(t, seq![1usize, 2usize]);
        let j = choose|j: int| 0 <= j < ss.len() && ss[j] == b;
        if i == 0 { assert(e[0] == t);
        } else if i == 1 { assert(e[1] == t);
        } else if i == 2 && j == 0 { assert("B"@[0] != "A"@[0]); assert(pick(rr[2], seq![1usize, 2usize])[1] != pick(ss[0], seq![0usize, 1usize])[1]);
        } else if i == 2 && j == 1 { assert("a"@[0] != "c"@[0]); assert(pick(rr[2], seq![1usize, 2usize])[0] != pick(ss[1], seq![0usize, 1usize])[0]);
        } else if i == 2 && j == 2 { assert("a"@[0] != "b"@[0]); assert(pick(rr[2], seq![1usize, 2usize])[0] != pick(ss[2], seq![0usize, 1usize])[0]);
        } else if i == 3 && j == 0 { assert("b"@[0] != "a"@[0]); assert(pick(rr[3], seq![1usize, 2usize])[0] != pick(ss[0], seq![0usize, 1usize])[0]);
        } else if i == 3 && j == 1 { assert("b"@[0] != "c"@[0]); assert(pick(rr[3], seq![1usize, 2usize])[0] != pick(ss[1], seq![0usize, 1usize])[0]);
        } else if i == 3 && j == 2 { assert("A"@[0] != "B"@[0]); assert(pick(rr[3], seq![1usize, 2usize])[1] != pick(ss[2], seq![0usize, 1usize])[1]);
        } else if i == 4 { assert(e[2] == t);
        }
    }
    assert forall|t: Seq<Atom>| #[trigger] e.to_set().contains(t) implies rb.contains(t) by {
        let m = choose|m: int| 0 <= m < e.len() && e[m] == t;
        if m == 0 { assert(rr[0] == t); assert(rr.to_set().contains(rr[0])); assert(ss.to_set().contains(ss[0])); assert(pick(ss[0], seq![0usize, 1usize]) =~= pick(t, seq![1usize, 2usize]));
        } else if m == 1 { assert(rr[1] == t); assert(rr.to_set().contains(rr[1])); assert(ss.to_set().contains(ss[0])); assert(pick(ss[0], seq![0usize, 1usize]) =~= pick(t, seq![1usize, 2usize]));
        } else if m == 2 { assert(rr[4] == t); assert(rr.to_set().contains(rr[4])); assert(ss.to_set().contains(ss[2])); assert(pick(ss[2], seq![0usize, 1usize]) =~= pick(t, seq![1usize, 2usize]));
        }
    }
    assert(rb =~= e.to_set());
}
} // verus!
