use codd::comparison::verify;
use codd::data::{
    build_children, build_component, build_employee, build_fig12_r, build_fig12_s, build_fig13_r,
    build_fig13_s, build_fig5_r, build_fig5_s, build_fig7_u, build_fig8_r, build_fig8_s, build_fig8_t,
    build_jobhistory, build_salaryhistory, build_supply,
};
use codd::join::{composition, natural_join};
use codd::relation::{
    distinct_names, indices_below, permutation, projection, relation, restriction,
    valid_permutation, Relation,
};
use codd::tuple_set::{tset, Tuple};
use codd::value::{integer, val, Value};

fn ints(xs: &[i64]) -> Tuple {
    xs.iter().map(|&x| integer(x)).collect()
}

fn strs(xs: &[&str]) -> Tuple {
    xs.iter().map(|&x| val(x)).collect()
}

fn sorted(mut rows: Vec<Tuple>) -> Vec<Tuple> {
    rows.sort();
    rows.dedup();
    rows
}

fn assert_tuples(r: &Relation, expected: Vec<Tuple>) {
    assert_eq!(r.tuples().rows(), sorted(expected));
}

#[test]
fn fig4_permuted_projection_of_supply() {
    let fig4 = projection(&build_supply(), &[2, 0], "Π_a(supply)");
    assert_eq!(fig4.columns(), &vec!["project".to_string(), "supplier".to_string()]);
    assert_tuples(&fig4, vec![ints(&[1, 4]), ints(&[5, 1]), ints(&[5, 2]), ints(&[7, 2])]);
    assert_eq!(fig4.cardinality(), 4);
    let c = verify(&fig4, &tset(vec![ints(&[1, 4]), ints(&[5, 1]), ints(&[5, 2]), ints(&[7, 2])]));
    assert!(c.matches);
}

#[test]
fn permutation_of_supply_keeps_all_tuples() {
    let p = permutation(&build_supply(), &[2, 1, 0, 3], "supply (permuted: project, part, supplier, quantity)");
    assert_eq!(
        p.columns(),
        &vec!["project".to_string(), "part".to_string(), "supplier".to_string(), "quantity".to_string()]
    );
    assert_tuples(
        &p,
        vec![
            ints(&[1, 1, 4, 12]),
            ints(&[5, 2, 1, 17]),
            ints(&[5, 3, 1, 23]),
            ints(&[5, 7, 2, 4]),
            ints(&[7, 3, 2, 9]),
        ],
    );
}

#[test]
fn fig6_natural_join() {
    let j = natural_join(&build_fig5_r(), &build_fig5_s(), "R*S");
    assert_eq!(
        j.columns(),
        &vec!["supplier".to_string(), "part".to_string(), "project".to_string()]
    );
    assert_tuples(
        &j,
        vec![ints(&[1, 1, 1]), ints(&[1, 1, 2]), ints(&[2, 1, 1]), ints(&[2, 1, 2]), ints(&[2, 2, 1])],
    );
}

#[test]
fn fig7_projections_of_another_join() {
    let u = build_fig7_u();
    let p12 = projection(&u, &[0, 1], "π₁₂(U)");
    let p23 = projection(&u, &[1, 2], "π₂₃(U)");
    assert!(verify(&p12, build_fig5_r().tuples()).matches);
    assert!(verify(&p23, build_fig5_s().tuples()).matches);
}

#[test]
fn fig9_cyclic_three_join() {
    let rs = natural_join(&build_fig8_r(), &build_fig8_s(), "_RS");
    let u = natural_join(&rs, &build_fig8_t(), "U'");
    assert_eq!(u.columns(), &vec!["s".to_string(), "p".to_string(), "j".to_string()]);
    assert_tuples(
        &u,
        vec![
            strs(&["1", "a", "d"]),
            strs(&["2", "a", "d"]),
            strs(&["2", "a", "e"]),
            strs(&["2", "b", "d"]),
            strs(&["2", "b", "e"]),
        ],
    );
    assert!(verify(&projection(&u, &[0, 1], "π_sp(U')"), build_fig8_r().tuples()).matches);
    assert!(verify(&projection(&u, &[1, 2], "π_pj(U')"), build_fig8_s().tuples()).matches);
    assert!(verify(&projection(&u, &[2, 0], "π_js(U')"), build_fig8_t().tuples()).matches);
}

#[test]
fn fig10_natural_composition() {
    let c = composition(&build_fig5_r(), &build_fig5_s(), "R·S");
    assert_eq!(c.columns(), &vec!["supplier".to_string(), "project".to_string()]);
    assert_tuples(&c, vec![ints(&[1, 1]), ints(&[1, 2]), ints(&[2, 1]), ints(&[2, 2])]);
}

#[test]
fn fig11_composition_from_another_join() {
    let t = projection(&build_fig7_u(), &[0, 2], "T");
    assert_tuples(&t, vec![ints(&[1, 2]), ints(&[2, 1])]);
}

#[test]
fn fig12_many_joins_one_composition() {
    let r = build_fig12_r();
    let s = build_fig12_s();
    let j = natural_join(&r, &s, "R*S");
    assert_eq!(j.cardinality(), 8);
    let c = composition(&r, &s, "R·S");
    assert_tuples(
        &c,
        vec![strs(&["1", "f"]), strs(&["1", "g"]), strs(&["2", "f"]), strs(&["2", "g"])],
    );
}

#[test]
fn fig13_restriction() {
    let r = restriction(&build_fig13_r(), &build_fig13_s(), &[1, 2], &[0, 1], "R'");
    assert_eq!(r.columns(), build_fig13_r().columns());
    assert_tuples(
        &r,
        vec![strs(&["1", "a", "A"]), strs(&["2", "a", "A"]), strs(&["2", "b", "B"])],
    );
}

#[test]
fn paper_relations_have_their_sizes() {
    assert_eq!(build_supply().cardinality(), 5);
    assert_eq!(build_component().cardinality(), 7);
    assert_eq!(build_employee().cardinality(), 5);
    assert_eq!(build_jobhistory().cardinality(), 10);
    assert_eq!(build_salaryhistory().cardinality(), 12);
    assert_eq!(build_children().cardinality(), 7);
    assert_eq!(build_salaryhistory().degree(), 4);
    assert_eq!(build_employee().name(), "employee");
}

#[test]
fn relation_keeps_a_repeated_row_once_and_orders_rows() {
    let r = relation(
        "X",
        &["a", "b"],
        vec![ints(&[2, 1]), strs(&["x", "y"]), ints(&[1, 5]), ints(&[2, 1]), vec![integer(1), val("z")]],
    );
    assert_eq!(r.cardinality(), 4);
    let rows = r.tuples().rows();
    for w in rows.windows(2) {
        assert!(w[0] < w[1]);
    }
    assert_eq!(rows[0], ints(&[1, 5]));
    assert_eq!(rows[3], strs(&["x", "y"]));
}

#[test]
fn string_order_is_byte_order() {
    let r = relation(
        "X",
        &["a"],
        vec![strs(&["é"]), strs(&["z"]), strs(&["Z"]), strs(&["ab"]), strs(&["a"]), strs(&[""])],
    );
    let rows = r.tuples().rows();
    let mut expected = vec![strs(&["é"]), strs(&["z"]), strs(&["Z"]), strs(&["ab"]), strs(&["a"]), strs(&[""])];
    expected.sort();
    assert_eq!(rows, expected);
    assert_eq!(rows[0], strs(&[""]));
    assert_eq!(rows[5], strs(&["é"]));
}

#[test]
fn projection_removes_duplicates() {
    let p = projection(&build_supply(), &[0], "suppliers");
    assert_tuples(&p, vec![ints(&[1]), ints(&[2]), ints(&[4])]);
    let empty = projection(&build_supply(), &[], "none");
    assert_eq!(empty.degree(), 0);
    assert_eq!(empty.cardinality(), 1);
}

#[test]
fn law_permutation_round_trip_on_supply() {
    let supply = build_supply();
    let p = permutation(&supply, &[2, 0, 3, 1], "p");
    // q is the inverse of p: p[q[k]] == k
    let back = permutation(&p, &[1, 3, 0, 2], "back");
    assert_eq!(back.columns(), supply.columns());
    assert!(verify(&back, supply.tuples()).matches);
}

#[test]
fn law_join_without_common_columns_is_product() {
    let a = relation("A", &["x"], vec![ints(&[1]), ints(&[2])]);
    let b = relation("B", &["y", "z"], vec![strs(&["p", "q"]), strs(&["r", "s"]), strs(&["t", "u"])]);
    let j = natural_join(&a, &b, "A*B");
    assert_eq!(j.columns(), &vec!["x".to_string(), "y".to_string(), "z".to_string()]);
    assert_eq!(j.cardinality(), 6);
    assert!(j.tuples().contains(&vec![integer(2), val("t"), val("u")]));
}

#[test]
fn law_join_projects_onto_left() {
    let r = build_fig12_r();
    let s = relation("S", &["part", "project"], vec![strs(&["a", "g"]), strs(&["c", "f"])]);
    let j = natural_join(&r, &s, "R*S");
    let back = projection(&j, &[0, 1], "back");
    let c = verify(&back, r.tuples());
    assert!(!c.matches);
    assert!(c.extra.is_empty());
    assert_eq!(
        c.missing,
        vec![strs(&["1", "b"]), strs(&["2", "d"]), strs(&["2", "e"])]
    );
}

#[test]
fn law_join_matches_each_column_once() {
    // Duplicate column names in R come from projecting a column twice.
    let r = projection(&build_fig5_r(), &[1, 1], "RR");
    assert_eq!(r.columns(), &vec!["part".to_string(), "part".to_string()]);
    let s = build_fig5_s();
    let j = natural_join(&r, &s, "RR*S");
    // Only the first "part" of R matches S's "part"; the second matches nothing.
    assert_eq!(
        j.columns(),
        &vec!["part".to_string(), "part".to_string(), "project".to_string()]
    );
    assert_tuples(&j, vec![ints(&[1, 1, 1]), ints(&[1, 1, 2]), ints(&[2, 2, 1])]);
}

#[test]
fn law_restriction_subset_and_idempotent() {
    let r = build_fig13_r();
    let s = build_fig13_s();
    let once = restriction(&r, &s, &[1, 2], &[0, 1], "once");
    let twice = restriction(&once, &s, &[1, 2], &[0, 1], "twice");
    assert!(verify(&twice, once.tuples()).matches);
    for t in once.tuples().rows() {
        assert!(r.tuples().contains(&t));
    }
}

#[test]
fn composition_drops_every_shared_name() {
    let r = relation("R", &["a", "b"], vec![ints(&[1, 2])]);
    let s = relation("S", &["b", "c"], vec![ints(&[2, 3]), ints(&[4, 5])]);
    let c = composition(&r, &s, "R·S");
    assert_eq!(c.columns(), &vec!["a".to_string(), "c".to_string()]);
    assert_tuples(&c, vec![ints(&[1, 3])]);
}

#[test]
fn verify_reports_missing_and_extra() {
    let r = build_fig5_r();
    let expected = tset(vec![ints(&[1, 1]), ints(&[3, 3])]);
    let c = verify(&r, &expected);
    assert!(!c.matches);
    assert_eq!(c.missing, vec![ints(&[3, 3])]);
    assert_eq!(c.extra, vec![ints(&[2, 1]), ints(&[2, 2])]);
}

#[test]
fn argument_validation() {
    assert!(distinct_names(&["a", "b", "c"]));
    assert!(!distinct_names(&["a", "b", "a"]));
    assert!(distinct_names(&[]));
    assert!(valid_permutation(&[2, 0, 1], 3));
    assert!(!valid_permutation(&[0, 0, 1], 3));
    assert!(!valid_permutation(&[0, 1], 3));
    assert!(!valid_permutation(&[0, 1, 3], 3));
    assert!(indices_below(&[0, 3], 4));
    assert!(!indices_below(&[0, 4], 4));
}

#[test]
fn values_print_in_decimal() {
    assert_eq!(integer(0).to_text(), "0");
    assert_eq!(integer(1962).to_text(), "1962");
    assert_eq!(integer(-45).to_text(), "-45");
    assert_eq!(integer(i64::MIN).to_text(), i64::MIN.to_string());
    assert_eq!(integer(i64::MAX).to_text(), i64::MAX.to_string());
    assert_eq!(val("John Smith").to_text(), "John Smith");
    assert_eq!(Value::Str(String::new()).to_text(), "");
}

#[test]
fn fig6_renders_as_in_the_readme() {
    let j = natural_join(&build_fig5_r(), &build_fig5_s(), "R*S");
    let expected = "R*S (5 tuples):\n\
┌──────────┬──────┬─────────┐\n\
│ supplier │ part │ project │\n\
├──────────┼──────┼─────────┤\n\
│ 1        │ 1    │ 1       │\n\
│ 1        │ 1    │ 2       │\n\
│ 2        │ 1    │ 1       │\n\
│ 2        │ 1    │ 2       │\n\
│ 2        │ 2    │ 1       │\n\
└──────────┴──────┴─────────┘";
    assert_eq!(j.render(), expected);
}

#[test]
fn rendering_widths_follow_the_widest_value() {
    let r = relation("W", &["n", "name"], vec![vec![integer(-1234), val("Al")], vec![integer(5), val("Bo")]]);
    let expected = "W (2 tuples):\n\
┌───────┬──────┐\n\
│ n     │ name │\n\
├───────┼──────┤\n\
│ -1234 │ Al   │\n\
│ 5     │ Bo   │\n\
└───────┴──────┘";
    assert_eq!(r.render(), expected);
}

#[test]
fn rendering_without_columns() {
    let e = projection(&build_fig5_r(), &[], "E");
    assert_eq!(e.render(), "E (0 columns, 1 tuples)");
}

#[test]
fn rendering_an_empty_relation() {
    let r = relation("Z", &["a"], vec![]);
    assert_eq!(r.render(), "Z (0 tuples):\n┌───┐\n│ a │\n├───┤\n└───┘");
}

#[test]
fn rendering_pads_by_characters_after_measuring_bytes() {
    // "é" is one character of two bytes: the column is two bytes wide, and
    // padding to two characters adds one space after it.
    let r = relation("P", &["c"], vec![strs(&["é"])]);
    assert_eq!(r.render(), "P (1 tuples):\n┌────┐\n│ c  │\n├────┤\n│ é  │\n└────┘");
}

#[test]
fn law_join_commutes_on_figure_5() {
    let rs = natural_join(&build_fig5_r(), &build_fig5_s(), "R*S");
    let sr = natural_join(&build_fig5_s(), &build_fig5_r(), "S*R");
    assert_eq!(sr.columns(), &vec!["part".to_string(), "project".to_string(), "supplier".to_string()]);
    // Reorder S*R's columns (part, project, supplier) into R*S's order (supplier, part, project).
    let back = permutation(&sr, &[2, 0, 1], "back");
    assert!(verify(&back, rs.tuples()).matches);
}

#[test]
fn law_join_heading_distinct_and_degree() {
    let j = natural_join(&build_fig13_r(), &build_fig13_s(), "R*S");
    assert_eq!(j.columns(), &vec!["s".to_string(), "p".to_string(), "j".to_string()]);
    assert_eq!(j.degree(), 3 + 2 - 2);
    let k = natural_join(&build_supply(), &build_component(), "supply*component");
    assert_eq!(k.degree(), 4 + 3 - 1);
}

#[test]
fn jobhistory_keys_and_salary_references() {
    let jobs = build_jobhistory();
    assert_eq!(projection(&jobs, &[0, 1], "keys").cardinality(), 10);
    let job_keys = projection(&jobs, &[0, 1], "keys");
    let salary_jobs = projection(&build_salaryhistory(), &[0, 1], "salary jobs");
    let c = verify(&salary_jobs, job_keys.tuples());
    assert!(c.extra.is_empty());
    let employees = projection(&build_employee(), &[0], "employees");
    let parents = projection(&build_children(), &[0], "parents");
    assert!(verify(&parents, employees.tuples()).extra.is_empty());
}
