//! The relations of Codd's paper: the supply and parts data, the
//! normalized employee relations, and the operands of the figures of
//! section 2.1.
use vstd::prelude::*;
use crate::value::{integer, val, Atom};
use crate::relation::{relation, Relation};

verus! {

/// The integer `n` as a value.
pub open spec fn num(n: i64) -> Atom {
    Atom::Int(n)
}

/// The string `s` as a value.
pub open spec fn text(s: &str) -> Atom {
    Atom::Text(s@)
}

/// The tuples of [`build_supply`], in the order given.
pub open spec fn supply_rows() -> Seq<Seq<Atom>> {
    seq![
        seq![num(1), num(2), num(5), num(17)],
        seq![num(1), num(3), num(5), num(23)],
        seq![num(2), num(3), num(7), num(9)],
        seq![num(2), num(7), num(5), num(4)],
        seq![num(4), num(1), num(1), num(12)],
    ]
}

/// Figure 1, `supply`: which supplier supplies which part to which project, in what quantity.
pub fn build_supply() -> (r: Relation)
    ensures
        r.wf(),
        r.title() == "supply"@,
        r.heading() == seq!["supplier"@, "part"@, "project"@, "quantity"@],
        r.body() == supply_rows().to_set(),
{
    proof {
        reveal_strlit("supplier");
        reveal_strlit("part");
        reveal_strlit("project");
        reveal_strlit("quantity");
        assert("supplier"@.len() != "part"@.len());
        assert("supplier"@.len() != "project"@.len());
        assert("supplier"@[0] != "quantity"@[0]);
        assert("part"@.len() != "project"@.len());
        assert("part"@.len() != "quantity"@.len());
        assert("project"@.len() != "quantity"@.len());
        assert(seq!["supplier"@, "part"@, "project"@, "quantity"@].no_duplicates());
    }
    let columns = ["supplier", "part", "project", "quantity"];
    assert(columns.deep_view() =~= seq!["supplier"@, "part"@, "project"@, "quantity"@]);
    let mut rows = Vec::new();
    rows.push(vec![integer(1), integer(2), integer(5), integer(17)]);
    rows.push(vec![integer(1), integer(3), integer(5), integer(23)]);
    rows.push(vec![integer(2), integer(3), integer(7), integer(9)]);
    rows.push(vec![integer(2), integer(7), integer(5), integer(4)]);
    rows.push(vec![integer(4), integer(1), integer(1), integer(12)]);
    assert(rows.deep_view() =~~= supply_rows());
    relation("supply", &columns, rows)
}

/// The tuples of [`build_component`], in the order given.
pub open spec fn component_rows() -> Seq<Seq<Atom>> {
    seq![
        seq![num(1), num(5), num(9)],
        seq![num(2), num(5), num(7)],
        seq![num(3), num(5), num(2)],
        seq![num(2), num(6), num(12)],
        seq![num(3), num(6), num(3)],
        seq![num(2), num(7), num(1)],
        seq![num(6), num(7), num(1)],
    ]
}

/// Figure 2, `component`: which part is a component of which assembly, in what quantity.
pub fn build_component() -> (r: Relation)
    ensures
        r.wf(),
        r.title() == "component"@,
        r.heading() == seq!["sub_part"@, "assembly"@, "quantity"@],
        r.body() == component_rows().to_set(),
{
    proof {
        reveal_strlit("sub_part");
        reveal_strlit("assembly");
        reveal_strlit("quantity");
        assert("sub_part"@[0] != "assembly"@[0]);
        assert("sub_part"@[0] != "quantity"@[0]);
        assert("assembly"@[0] != "quantity"@[0]);
        assert(seq!["sub_part"@, "assembly"@, "quantity"@].no_duplicates());
    }
    let columns = ["sub_part", "assembly", "quantity"];
    assert(columns.deep_view() =~= seq!["sub_part"@, "assembly"@, "quantity"@]);
    let mut rows = Vec::new();
    rows.push(vec![integer(1), integer(5), integer(9)]);
    rows.push(vec![integer(2), integer(5), integer(7)]);
    rows.push(vec![integer(3), integer(5), integer(2)]);
    rows.push(vec![integer(2), integer(6), integer(12)]);
    rows.push(vec![integer(3), integer(6), integer(3)]);
    rows.push(vec![integer(2), integer(7), integer(1)]);
    rows.push(vec![integer(6), integer(7), integer(1)]);
    assert(rows.deep_view() =~~= component_rows());
    relation("component", &columns, rows)
}

/// The tuples of [`build_employee`], in the order given.
pub open spec fn employee_rows() -> Seq<Seq<Atom>> {
    seq![
        seq![num(1001), text("John Smith"), text("1935-04-12")],
        seq![num(1002), text("Mary Johnson"), text("1940-08-23")],
        seq![num(1003), text("Robert Brown"), text("1938-01-15")],
        seq![num(1004), text("Alice Williams"), text("1942-11-30")],
        seq![num(1005), text("James Davis"), text("1937-06-07")],
    ]
}

/// Figure 3(b), `employee`: the employees with their names and birthdates.
pub fn build_employee() -> (r: Relation)
    ensures
        r.wf(),
        r.title() == "employee"@,
        r.heading() == seq!["man_no"@, "name"@, "birthdate"@],
        r.body() == employee_rows().to_set(),
{
    proof {
        reveal_strlit("man_no");
        reveal_strlit("name");
        reveal_strlit("birthdate");
        assert("man_no"@.len() != "name"@.len());
        assert("man_no"@.len() != "birthdate"@.len());
        assert("name"@.len() != "birthdate"@.len());
        assert(seq!["man_no"@, "name"@, "birthdate"@].no_duplicates());
    }
    let columns = ["man_no", "name", "birthdate"];
    assert(columns.deep_view() =~= seq!["man_no"@, "name"@, "birthdate"@]);
    let mut rows = Vec::new();
    rows.push(vec![integer(1001), val("John Smith"), val("1935-04-12")]);
    rows.push(vec![integer(1002), val("Mary Johnson"), val("1940-08-23")]);
    rows.push(vec![integer(1003), val("Robert Brown"), val("1938-01-15")]);
    rows.push(vec![integer(1004), val("Alice Williams"), val("1942-11-30")]);
    rows.push(vec![integer(1005), val("James Davis"), val("1937-06-07")]);
    assert(rows.deep_view() =~~= employee_rows());
    relation("employee", &columns, rows)
}

/// The tuples of [`build_jobhistory`], in the order given.
pub open spec fn jobhistory_rows() -> Seq<Seq<Atom>> {
    seq![
        seq![num(1001), text("1960-01-15"), text("Junior Engineer")],
        seq![num(1001), text("1963-06-01"), text("Senior Engineer")],
        seq![num(1001), text("1968-03-15"), text("Project Lead")],
        seq![num(1002), text("1962-09-01"), text("Analyst")],
        seq![num(1002), text("1966-04-01"), text("Senior Analyst")],
        seq![num(1003), text("1959-07-01"), text("Technician")],
        seq![num(1003), text("1964-01-01"), text("Senior Technician")],
        seq![num(1004), text("1965-03-01"), text("Programmer")],
        seq![num(1005), text("1958-11-01"), text("Draftsman")],
        seq![num(1005), text("1963-02-01"), text("Designer")],
    ]
}

/// Figure 3(b), `jobhistory`: the titles each employee held, by date.
pub fn build_jobhistory() -> (r: Relation)
    ensures
        r.wf(),
        r.title() == "jobhistory"@,
        r.heading() == seq!["man_no"@, "jobdate"@, "title"@],
        r.body() == jobhistory_rows().to_set(),
{
    proof {
        reveal_strlit("man_no");
        reveal_strlit("jobdate");
        reveal_strlit("title");
        assert("man_no"@.len() != "jobdate"@.len());
        assert("man_no"@.len() != "title"@.len());
        assert("jobdate"@.len() != "title"@.len());
        assert(seq!["man_no"@, "jobdate"@, "title"@].no_duplicates());
    }
    let columns = ["man_no", "jobdate", "title"];
    assert(columns.deep_view() =~= seq!["man_no"@, "jobdate"@, "title"@]);
    let mut rows = Vec::new();
    rows.push(vec![integer(1001), val("1960-01-15"), val("Junior Engineer")]);
    rows.push(vec![integer(1001), val("1963-06-01"), val("Senior Engineer")]);
    rows.push(vec![integer(1001), val("1968-03-15"), val("Project Lead")]);
    rows.push(vec![integer(1002), val("1962-09-01"), val("Analyst")]);
    rows.push(vec![integer(1002), val("1966-04-01"), val("Senior Analyst")]);
    rows.push(vec![integer(1003), val("1959-07-01"), val("Technician")]);
    rows.push(vec![integer(1003), val("1964-01-01"), val("Senior Technician")]);
    rows.push(vec![integer(1004), val("1965-03-01"), val("Programmer")]);
    rows.push(vec![integer(1005), val("1958-11-01"), val("Draftsman")]);
    rows.push(vec![integer(1005), val("1963-02-01"), val("Designer")]);
    assert(rows.deep_view() =~~= jobhistory_rows());
    relation("jobhistory", &columns, rows)
}

/// The tuples of [`build_salaryhistory`], in the order given.
pub open spec fn salaryhistory_rows() -> Seq<Seq<Atom>> {
    seq![
        seq![num(1001), text("1960-01-15"), text("1960-01-15"), num(8000)],
        seq![num(1001), text("1960-01-15"), text("1961-06-01"), num(8500)],
        seq![num(1001), text("1963-06-01"), text("1963-06-01"), num(11000)],
        seq![num(1001), text("1963-06-01"), text("1965-01-01"), num(12500)],
        seq![num(1001), text("1968-03-15"), text("1968-03-15"), num(16000)],
        seq![num(1002), text("1962-09-01"), text("1962-09-01"), num(9000)],
        seq![num(1002), text("1966-04-01"), text("1966-04-01"), num(13000)],
        seq![num(1003), text("1959-07-01"), text("1959-07-01"), num(7000)],
        seq![num(1003), text("1964-01-01"), text("1964-01-01"), num(9500)],
        seq![num(1004), text("1965-03-01"), text("1965-03-01"), num(10000)],
        seq![num(1005), text("1958-11-01"), text("1958-11-01"), num(6500)],
        seq![num(1005), text("1963-02-01"), text("1963-02-01"), num(9000)],
    ]
}

/// Figure 3(b), `salaryhistory`: the salaries each employee was paid in each job.
pub fn build_salaryhistory() -> (r: Relation)
    ensures
        r.wf(),
        r.title() == "salaryhistory"@,
        r.heading() == seq!["man_no"@, "jobdate"@, "salarydate"@, "salary"@],
        r.body() == salaryhistory_rows().to_set(),
{
    proof {
        reveal_strlit("man_no");
        reveal_strlit("jobdate");
        reveal_strlit("salarydate");
        reveal_strlit("salary");
        assert("man_no"@.len() != "jobdate"@.len());
        assert("man_no"@.len() != "salarydate"@.len());
        assert("man_no"@[0] != "salary"@[0]);
        assert("jobdate"@.len() != "salarydate"@.len());
        assert("jobdate"@.len() != "salary"@.len());
        assert("salarydate"@.len() != "salary"@.len());
        assert(seq!["man_no"@, "jobdate"@, "salarydate"@, "salary"@].no_duplicates());
    }
    let columns = ["man_no", "jobdate", "salarydate", "salary"];
    assert(columns.deep_view() =~= seq!["man_no"@, "jobdate"@, "salarydate"@, "salary"@]);
    let mut rows = Vec::new();
    rows.push(vec![integer(1001), val("1960-01-15"), val("1960-01-15"), integer(8000)]);
    rows.push(vec![integer(1001), val("1960-01-15"), val("1961-06-01"), integer(8500)]);
    rows.push(vec![integer(1001), val("1963-06-01"), val("1963-06-01"), integer(11000)]);
    rows.push(vec![integer(1001), val("1963-06-01"), val("1965-01-01"), integer(12500)]);
    rows.push(vec![integer(1001), val("1968-03-15"), val("1968-03-15"), integer(16000)]);
    rows.push(vec![integer(1002), val("1962-09-01"), val("1962-09-01"), integer(9000)]);
    rows.push(vec![integer(1002), val("1966-04-01"), val("1966-04-01"), integer(13000)]);
    rows.push(vec![integer(1003), val("1959-07-01"), val("1959-07-01"), integer(7000)]);
    rows.push(vec![integer(1003), val("1964-01-01"), val("1964-01-01"), integer(9500)]);
    rows.push(vec![integer(1004), val("1965-03-01"), val("1965-03-01"), integer(10000)]);
    rows.push(vec![integer(1005), val("1958-11-01"), val("1958-11-01"), integer(6500)]);
    rows.push(vec![integer(1005), val("1963-02-01"), val("1963-02-01"), integer(9000)]);
    assert(rows.deep_view() =~~= salaryhistory_rows());
    relation("salaryhistory", &columns, rows)
}

/// The tuples of [`build_children`], in the order given.
pub open spec fn children_rows() -> Seq<Seq<Atom>> {
    seq![
        seq![num(1001), text("Tom"), num(1962)],
        seq![num(1001), text("Susan"), num(1965)],
        seq![num(1002), text("Anna"), num(1964)],
        seq![num(1003), text("Peter"), num(1961)],
        seq![num(1003), text("Linda"), num(1963)],
        seq![num(1003), text("David"), num(1967)],
        seq![num(1005), text("Carol"), num(1960)],
    ]
}

/// Figure 3(b), `children`: the children of each employee, with their birth years.
pub fn build_children() -> (r: Relation)
    ensures
        r.wf(),
        r.title() == "children"@,
        r.heading() == seq!["man_no"@, "childname"@, "birthyear"@],
        r.body() == children_rows().to_set(),
{
    proof {
        reveal_strlit("man_no");
        reveal_strlit("childname");
        reveal_strlit("birthyear");
        assert("man_no"@.len() != "childname"@.len());
        assert("man_no"@.len() != "birthyear"@.len());
        assert("childname"@[0] != "birthyear"@[0]);
        assert(seq!["man_no"@, "childname"@, "birthyear"@].no_duplicates());
    }
    let columns = ["man_no", "childname", "birthyear"];
    assert(columns.deep_view() =~= seq!["man_no"@, "childname"@, "birthyear"@]);
    let mut rows = Vec::new();
    rows.push(vec![integer(1001), val("Tom"), integer(1962)]);
    rows.push(vec![integer(1001), val("Susan"), integer(1965)]);
    rows.push(vec![integer(1002), val("Anna"), integer(1964)]);
    rows.push(vec![integer(1003), val("Peter"), integer(1961)]);
    rows.push(vec![integer(1003), val("Linda"), integer(1963)]);
    rows.push(vec![integer(1003), val("David"), integer(1967)]);
    rows.push(vec![integer(1005), val("Carol"), integer(1960)]);
    assert(rows.deep_view() =~~= children_rows());
    relation("children", &columns, rows)
}

/// The tuples of [`build_fig5_r`], in the order given.
pub open spec fn fig5_r_rows() -> Seq<Seq<Atom>> {
    seq![
        seq![num(1), num(1)],
        seq![num(2), num(1)],
        seq![num(2), num(2)],
    ]
}

/// Figure 5, relation R: which supplier supplies which part.
pub fn build_fig5_r() -> (r: Relation)
    ensures
        r.wf(),
        r.title() == "R"@,
        r.heading() == seq!["supplier"@, "part"@],
        r.body() == fig5_r_rows().to_set(),
{
    proof {
        reveal_strlit("supplier");
        reveal_strlit("part");
        assert("supplier"@.len() != "part"@.len());
        assert(seq!["supplier"@, "part"@].no_duplicates());
    }
    let columns = ["supplier", "part"];
    assert(columns.deep_view() =~= seq!["supplier"@, "part"@]);
    let mut rows = Vec::new();
    rows.push(vec![integer(1), integer(1)]);
    rows.push(vec![integer(2), integer(1)]);
    rows.push(vec![integer(2), integer(2)]);
    assert(rows.deep_view() =~~= fig5_r_rows());
    relation("R", &columns, rows)
}

/// The tuples of [`build_fig5_s`], in the order given.
pub open spec fn fig5_s_rows() -> Seq<Seq<Atom>> {
    seq![
        seq![num(1), num(1)],
        seq![num(1), num(2)],
        seq![num(2), num(1)],
    ]
}

/// Figure 5, relation S: which part is used in which project.
pub fn build_fig5_s() -> (r: Relation)
    ensures
        r.wf(),
        r.title() == "S"@,
        r.heading() == seq!["part"@, "project"@],
        r.body() == fig5_s_rows().to_set(),
{
    proof {
        reveal_strlit("part");
        reveal_strlit("project");
        assert("part"@.len() != "project"@.len());
        assert(seq!["part"@, "project"@].no_duplicates());
    }
    let columns = ["part", "project"];
    assert(columns.deep_view() =~= seq!["part"@, "project"@]);
    let mut rows = Vec::new();
    rows.push(vec![integer(1), integer(1)]);
    rows.push(vec![integer(1), integer(2)]);
    rows.push(vec![integer(2), integer(1)]);
    assert(rows.deep_view() =~~= fig5_s_rows());
    relation("S", &columns, rows)
}

/// The tuples of [`build_fig8_r`], in the order given.
pub open spec fn fig8_r_rows() -> Seq<Seq<Atom>> {
    seq![
        seq![text("1"), text("a")],
        seq![text("2"), text("a")],
        seq![text("2"), text("b")],
    ]
}

/// Figure 8, relation R of the cyclic 3-join.
pub fn build_fig8_r() -> (r: Relation)
    ensures
        r.wf(),
        r.title() == "R"@,
        r.heading() == seq!["s"@, "p"@],
        r.body() == fig8_r_rows().to_set(),
{
    proof {
        reveal_strlit("s");
        reveal_strlit("p");
        assert("s"@[0] != "p"@[0]);
        assert(seq!["s"@, "p"@].no_duplicates());
    }
    let columns = ["s", "p"];
    assert(columns.deep_view() =~= seq!["s"@, "p"@]);
    let mut rows = Vec::new();
    rows.push(vec![val("1"), val("a")]);
    rows.push(vec![val("2"), val("a")]);
    rows.push(vec![val("2"), val("b")]);
    assert(rows.deep_view() =~~= fig8_r_rows());
    relation("R", &columns, rows)
}

/// The tuples of [`build_fig8_s`], in the order given.
pub open spec fn fig8_s_rows() -> Seq<Seq<Atom>> {
    seq![
        seq![text("a"), text("d")],
        seq![text("a"), text("e")],
        seq![text("b"), text("d")],
        seq![text("b"), text("e")],
    ]
}

/// Figure 8, relation S of the cyclic 3-join.
pub fn build_fig8_s() -> (r: Relation)
    ensures
        r.wf(),
        r.title() == "S"@,
        r.heading() == seq!["p"@, "j"@],
        r.body() == fig8_s_rows().to_set(),
{
    proof {
        reveal_strlit("p");
        reveal_strlit("j");
        assert("p"@[0] != "j"@[0]);
        assert(seq!["p"@, "j"@].no_duplicates());
    }
    let columns = ["p", "j"];
    assert(columns.deep_view() =~= seq!["p"@, "j"@]);
    let mut rows = Vec::new();
    rows.push(vec![val("a"), val("d")]);
    rows.push(vec![val("a"), val("e")]);
    rows.push(vec![val("b"), val("d")]);
    rows.push(vec![val("b"), val("e")]);
    assert(rows.deep_view() =~~= fig8_s_rows());
    relation("S", &columns, rows)
}

/// The tuples of [`build_fig8_t`], in the order given.
pub open spec fn fig8_t_rows() -> Seq<Seq<Atom>> {
    seq![
        seq![text("d"), text("1")],
        seq![text("d"), text("2")],
        seq![text("e"), text("2")],
    ]
}

/// Figure 8, relation T of the cyclic 3-join.
pub fn build_fig8_t() -> (r: Relation)
    ensures
        r.wf(),
        r.title() == "T"@,
        r.heading() == seq!["j"@, "s"@],
        r.body() == fig8_t_rows().to_set(),
{
    proof {
        reveal_strlit("j");
        reveal_strlit("s");
        assert("j"@[0] != "s"@[0]);
        assert(seq!["j"@, "s"@].no_duplicates());
    }
    let columns = ["j", "s"];
    assert(columns.deep_view() =~= seq!["j"@, "s"@]);
    let mut rows = Vec::new();
    rows.push(vec![val("d"), val("1")]);
    rows.push(vec![val("d"), val("2")]);
    rows.push(vec![val("e"), val("2")]);
    assert(rows.deep_view() =~~= fig8_t_rows());
    relation("T", &columns, rows)
}

/// The tuples of [`build_fig12_r`], in the order given.
pub open spec fn fig12_r_rows() -> Seq<Seq<Atom>> {
    seq![
        seq![text("1"), text("a")],
        seq![text("1"), text("b")],
        seq![text("1"), text("c")],
        seq![text("2"), text("c")],
        seq![text("2"), text("d")],
        seq![text("2"), text("e")],
    ]
}

/// Figure 12, relation R: many joins with S, one composition.
pub fn build_fig12_r() -> (r: Relation)
    ensures
        r.wf(),
        r.title() == "R"@,
        r.heading() == seq!["supplier"@, "part"@],
        r.body() == fig12_r_rows().to_set(),
{
    proof {
        reveal_strlit("supplier");
        reveal_strlit("part");
        assert("supplier"@.len() != "part"@.len());
        assert(seq!["supplier"@, "part"@].no_duplicates());
    }
    let columns = ["supplier", "part"];
    assert(columns.deep_view() =~= seq!["supplier"@, "part"@]);
    let mut rows = Vec::new();
    rows.push(vec![val("1"), val("a")]);
    rows.push(vec![val("1"), val("b")]);
    rows.push(vec![val("1"), val("c")]);
    rows.push(vec![val("2"), val("c")]);
    rows.push(vec![val("2"), val("d")]);
    rows.push(vec![val("2"), val("e")]);
    assert(rows.deep_view() =~~= fig12_r_rows());
    relation("R", &columns, rows)
}

/// The tuples of [`build_fig12_s`], in the order given.
pub open spec fn fig12_s_rows() -> Seq<Seq<Atom>> {
    seq![
        seq![text("a"), text("g")],
        seq![text("b"), text("f")],
        seq![text("c"), text("f")],
        seq![text("c"), text("g")],
        seq![text("d"), text("g")],
        seq![text("e"), text("f")],
    ]
}

/// Figure 12, relation S.
pub fn build_fig12_s() -> (r: Relation)
    ensures
        r.wf(),
        r.title() == "S"@,
        r.heading() == seq!["part"@, "project"@],
        r.body() == fig12_s_rows().to_set(),
{
    proof {
        reveal_strlit("part");
        reveal_strlit("project");
        assert("part"@.len() != "project"@.len());
        assert(seq!["part"@, "project"@].no_duplicates());
    }
    let columns = ["part", "project"];
    assert(columns.deep_view() =~= seq!["part"@, "project"@]);
    let mut rows = Vec::new();
    rows.push(vec![val("a"), val("g")]);
    rows.push(vec![val("b"), val("f")]);
    rows.push(vec![val("c"), val("f")]);
    rows.push(vec![val("c"), val("g")]);
    rows.push(vec![val("d"), val("g")]);
    rows.push(vec![val("e"), val("f")]);
    assert(rows.deep_view() =~~= fig12_s_rows());
    relation("S", &columns, rows)
}

/// The tuples of [`build_fig13_r`], in the order given.
pub open spec fn fig13_r_rows() -> Seq<Seq<Atom>> {
    seq![
        seq![text("1"), text("a"), text("A")],
        seq![text("2"), text("a"), text("A")],
        seq![text("2"), text("a"), text("B")],
        seq![text("2"), text("b"), text("A")],
        seq![text("2"), text("b"), text("B")],
    ]
}

/// Figure 13, relation R, to be restricted.
pub fn build_fig13_r() -> (r: Relation)
    ensures
        r.wf(),
        r.title() == "R"@,
        r.heading() == seq!["s"@, "p"@, "j"@],
        r.body() == fig13_r_rows().to_set(),
{
    proof {
        reveal_strlit("s");
        reveal_strlit("p");
        reveal_strlit("j");
        assert("s"@[0] != "p"@[0]);
        assert("s"@[0] != "j"@[0]);
        assert("p"@[0] != "j"@[0]);
        assert(seq!["s"@, "p"@, "j"@].no_duplicates());
    }
    let columns = ["s", "p", "j"];
    assert(columns.deep_view() =~= seq!["s"@, "p"@, "j"@]);
    let mut rows = Vec::new();
    rows.push(vec![val("1"), val("a"), val("A")]);
    rows.push(vec![val("2"), val("a"), val("A")]);
    rows.push(vec![val("2"), val("a"), val("B")]);
    rows.push(vec![val("2"), val("b"), val("A")]);
    rows.push(vec![val("2"), val("b"), val("B")]);
    assert(rows.deep_view() =~~= fig13_r_rows());
    relation("R", &columns, rows)
}

/// The tuples of [`build_fig13_s`], in the order given.
pub open spec fn fig13_s_rows() -> Seq<Seq<Atom>> {
    seq![
        seq![text("a"), text("A")],
        seq![text("c"), text("B")],
        seq![text("b"), text("B")],
    ]
}

/// Figure 13, relation S, the restricting relation.
pub fn build_fig13_s() -> (r: Relation)
    ensures
        r.wf(),
        r.title() == "S"@,
        r.heading() == seq!["p"@, "j"@],
        r.body() == fig13_s_rows().to_set(),
{
    proof {
        reveal_strlit("p");
        reveal_strlit("j");
        assert("p"@[0] != "j"@[0]);
        assert(seq!["p"@, "j"@].no_duplicates());
    }
    let columns = ["p", "j"];
    assert(columns.deep_view() =~= seq!["p"@, "j"@]);
    let mut rows = Vec::new();
    rows.push(vec![val("a"), val("A")]);
    rows.push(vec![val("c"), val("B")]);
    rows.push(vec![val("b"), val("B")]);
    assert(rows.deep_view() =~~= fig13_s_rows());
    relation("S", &columns, rows)
}

/// The tuples of [`build_fig7_u`], in the order given.
pub open spec fn fig7_u_rows() -> Seq<Seq<Atom>> {
    seq![
        seq![num(1), num(1), num(2)],
        seq![num(2), num(1), num(1)],
        seq![num(2), num(2), num(1)],
    ]
}

/// Figure 7, relation U: another join of R and S of figure 5, one whose projections are R and S but which is not their natural join.
pub fn build_fig7_u() -> (r: Relation)
    ensures
        r.wf(),
        r.title() == "U"@,
        r.heading() == seq!["supplier"@, "part"@, "project"@],
        r.body() == fig7_u_rows().to_set(),
{
    proof {
        reveal_strlit("supplier");
        reveal_strlit("part");
        reveal_strlit("project");
        assert("supplier"@.len() != "part"@.len());
        assert("supplier"@.len() != "project"@.len());
        assert("part"@.len() != "project"@.len());
        assert(seq!["supplier"@, "part"@, "project"@].no_duplicates());
    }
    let columns = ["supplier", "part", "project"];
    assert(columns.deep_view() =~= seq!["supplier"@, "part"@, "project"@]);
    let mut rows = Vec::new();
    rows.push(vec![integer(1), integer(1), integer(2)]);
    rows.push(vec![integer(2), integer(1), integer(1)]);
    rows.push(vec![integer(2), integer(2), integer(1)]);
    assert(rows.deep_view() =~~= fig7_u_rows());
    relation("U", &columns, rows)
}

} // verus!
