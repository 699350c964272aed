//! Facts about the data of the paper: which columns identify the tuples of
//! the employee relations, and which tuples refer to which.
use vstd::prelude::*;
use crate::value::Atom;
use crate::relation::{pick, project_body, projector};
use crate::data::{
    children_rows, employee_rows, jobhistory_rows, num, salaryhistory_rows, text,
};

verus! {

/// The tuples of a listing cut down to the columns `idx` are the set of
/// the listing's tuples each cut down to them.
pub proof fn lemma_project_listing(rows: Seq<Seq<Atom>>, idx: Seq<usize>)
    ensures
        project_body(rows.to_set(), idx) == rows.map_values(projector(idx)).to_set(),
{
    let f = projector(idx);
    let l = rows.to_set().map(f);
    let m = rows.map_values(f).to_set();
    assert forall|y: Seq<Atom>| #[trigger] l.contains(y) implies m.contains(y) by {
        let x = choose|x: Seq<Atom>| rows.to_set().contains(x) && y == f(x);
        let i = choose|i: int| 0 <= i < rows.len() && rows[i] == x;
        assert(rows.map_values(f)[i] == y);
    }
    assert forall|y: Seq<Atom>| #[trigger] m.contains(y) implies l.contains(y) by {
        let i = choose|i: int| 0 <= i < rows.len() && rows.map_values(f)[i] == y;
        assert(rows.to_set().contains(rows[i]));
    }
    assert(l =~= m);
}

/// A listing whose tuples cut down to some columns are all different holds
/// no tuple twice.
proof fn lemma_key_distinct(rows: Seq<Seq<Atom>>, idx: Seq<usize>)
    requires
        rows.map_values(projector(idx)).no_duplicates(),
    ensures
        rows.no_duplicates(),
{
    let k = rows.map_values(projector(idx));
    assert forall|i: int, j: int| 0 <= i < rows.len() && 0 <= j < rows.len() && i != j implies rows[i] != rows[j] by {
        assert(k[i] != k[j]);
    }
}

/// In `jobhistory`, an employee and a job date identify a tuple: the ten
/// tuples have ten different (man_no, jobdate) pairs. Every employee of
/// `jobhistory` is an employee of `employee`.
pub proof fn law_jobhistory_keys()
    ensures
        jobhistory_rows().to_set().len() == 10,
        jobhistory_rows().to_set().contains(seq![num(1004), text("1965-03-01"), text("Programmer")]),
        project_body(jobhistory_rows().to_set(), seq![0usize, 1usize]).len() == 10,
        project_body(jobhistory_rows().to_set(), seq![0usize]).subset_of(project_body(employee_rows().to_set(), seq![0usize])),
{
    reveal_strlit("1935-04-12");
    reveal_strlit("1937-06-07");
    reveal_strlit("1938-01-15");
    reveal_strlit("1940-08-23");
    reveal_strlit("1942-11-30");
    reveal_strlit("1958-11-01");
    reveal_strlit("1959-07-01");
    reveal_strlit("1960-01-15");
    reveal_strlit("1961-06-01");
    reveal_strlit("1962-09-01");
    reveal_strlit("1963-02-01");
    reveal_strlit("1963-06-01");
    reveal_strlit("1964-01-01");
    reveal_strlit("1965-01-01");
    reveal_strlit("1965-03-01");
    reveal_strlit("1966-04-01");
    reveal_strlit("1968-03-15");
    reveal_strlit("Alice Williams");
    reveal_strlit("Analyst");
    reveal_strlit("Anna");
    reveal_strlit("Carol");
    reveal_strlit("David");
    reveal_strlit("Designer");
    reveal_strlit("Draftsman");
    reveal_strlit("James Davis");
    reveal_strlit("John Smith");
    reveal_strlit("Junior Engineer");
    reveal_strlit("Linda");
    reveal_strlit("Mary Johnson");
    reveal_strlit("Peter");
    reveal_strlit("Programmer");
    reveal_strlit("Project Lead");
    reveal_strlit("Robert Brown");
    reveal_strlit("Senior Analyst");
    reveal_strlit("Senior Engineer");
    reveal_strlit("Senior Technician");
    reveal_strlit("Susan");
    reveal_strlit("Technician");
    let rows = jobhistory_rows();
    let keys = rows.map_values(projector(seq![0usize, 1usize]));
    assert(keys =~~= seq![seq![num(1001), text("1960-01-15")], seq![num(1001), text("1963-06-01")], seq![num(1001), text("1968-03-15")], seq![num(1002), text("1962-09-01")], seq![num(1002), text("1966-04-01")], seq![num(1003), text("1959-07-01")], seq![num(1003), text("1964-01-01")], seq![num(1004), text("1965-03-01")], seq![num(1005), text("1958-11-01")], seq![num(1005), text("1963-02-01")]]);
    assert forall|i: int, j: int| 0 <= i < j < 10 implies keys[i] != keys[j] by {
        if i == 0 && j == 1 { assert("1960-01-15"@[3] != "1963-06-01"@[3]); assert(keys[0][1] != keys[1][1]);
        } else if i == 0 && j == 2 { assert("1960-01-15"@[3] != "1968-03-15"@[3]); assert(keys[0][1] != keys[2][1]);
        } else if i == 0 && j == 3 { assert(keys[0][0] != keys[3][0]);
        } else if i == 0 && j == 4 { assert(keys[0][0] != keys[4][0]);
        } else if i == 0 && j == 5 { assert(keys[0][0] != keys[5][0]);
        } else if i == 0 && j == 6 { assert(keys[0][0] != keys[6][0]);
        } else if i == 0 && j == 7 { assert(keys[0][0] != keys[7][0]);
        } else if i == 0 && j == 8 { assert(keys[0][0] != keys[8][0]);
        } else if i == 0 && j == 9 { assert(keys[0][0] != keys[9][0]);
        } else if i == 1 && j == 2 { assert("1963-06-01"@[3] != "1968-03-15"@[3]); assert(keys[1][1] != keys[2][1]);
        } else if i == 1 && j == 3 { assert(keys[1][0] != keys[3][0]);
        } else if i == 1 && j == 4 { assert(keys[1][0] != keys[4][0]);
        } else if i == 1 && j == 5 { assert(keys[1][0] != keys[5][0]);
        } else if i == 1 && j == 6 { assert(keys[1][0] != keys[6][0]);
        } else if i == 1 && j == 7 { assert(keys[1][0] != keys[7][0]);
        } else if i == 1 && j == 8 { assert(keys[1][0] != keys[8][0]);
        } else if i == 1 && j == 9 { assert(keys[1][0] != keys[9][0]);
        } else if i == 2 && j == 3 { assert(keys[2][0] != keys[3][0]);
        } else if i == 2 && j == 4 { assert(keys[2][0] != keys[4][0]);
        } else if i == 2 && j == 5 { assert(keys[2][0] != keys[5][0]);
        } else if i == 2 && j == 6 { assert(keys[2][0] != keys[6][0]);
        } else if i == 2 && j == 7 { assert(keys[2][0] != keys[7][0]);
        } else if i == 2 && j == 8 { assert(keys[2][0] != keys[8][0]);
        } else if i == 2 && j == 9 { assert(keys[2][0] != keys[9][0]);
        } else if i == 3 && j == 4 { assert("1962-09-01"@[3] != "1966-04-01"@[3]); assert(keys[3][1] != keys[4][1]);
        } else if i == 3 && j == 5 { assert(keys[3][0] != keys[5][0]);
        } else if i == 3 && j == 6 { assert(keys[3][0] != keys[6][0]);
        } else if i == 3 && j == 7 { assert(keys[3][0] != keys[7][0]);
        } else if i == 3 && j == 8 { assert(keys[3][0] != keys[8][0]);
        } else if i == 3 && j == 9 { assert(keys[3][0] != keys[9][0]);
        } else if i == 4 && j == 5 { assert(keys[4][0] != keys[5][0]);
        } else if i == 4 && j == 6 { assert(keys[4][0] != keys[6][0]);
        } else if i == 4 && j == 7 { assert(keys[4][0] != keys[7][0]);
        } else if i == 4 && j == 8 { assert(keys[4][0] != keys[8][0]);
        } else if i == 4 && j == 9 { assert(keys[4][0] != keys[9][0]);
        } else if i == 5 && j == 6 { assert("1959-07-01"@[2] != "1964-01-01"@[2]); assert(keys[5][1] != keys[6][1]);
        } else if i == 5 && j == 7 { assert(keys[5][0] != keys[7][0]);
        } else if i == 5 && j == 8 { assert(keys[5][0] != keys[8][0]);
        } else if i == 5 && j == 9 { assert(keys[5][0] != keys[9][0]);
        } else if i == 6 && j == 7 { assert(keys[6][0] != keys[7][0]);
        } else if i == 6 && j == 8 { assert(keys[6][0] != keys[8][0]);
        } else if i == 6 && j == 9 { assert(keys[6][0] != keys[9][0]);
        } else if i == 7 && j == 8 { assert(keys[7][0] != keys[8][0]);
        } else if i == 7 && j == 9 { assert(keys[7][0] != keys[9][0]);
        } else if i == 8 && j == 9 { assert("1958-11-01"@[2] != "1963-02-01"@[2]); assert(keys[8][1] != keys[9][1]);
        }
    }
    assert(keys.no_duplicates()) by {
        assert forall|i: int, j: int| 0 <= i < 10 && 0 <= j < 10 && i != j implies keys[i] != keys[j] by {
            if j < i { assert(keys[j] != keys[i]); }
        }
    }
    lemma_key_distinct(rows, seq![0usize, 1usize]);
    rows.unique_seq_to_set();
    keys.unique_seq_to_set();
    lemma_project_listing(rows, seq![0usize, 1usize]);
    assert(rows[7] == seq![num(1004), text("1965-03-01"), text("Programmer")]);
    let jm = rows.map_values(projector(seq![0usize]));
    let em = employee_rows().map_values(projector(seq![0usize]));
    assert(jm =~~= seq![seq![num(1001)], seq![num(1001)], seq![num(1001)], seq![num(1002)], seq![num(1002)], seq![num(1003)], seq![num(1003)], seq![num(1004)], seq![num(1005)], seq![num(1005)]]);
    assert(em =~~= seq![seq![num(1001)], seq![num(1002)], seq![num(1003)], seq![num(1004)], seq![num(1005)]]);
    assert forall|x: Seq<Atom>| #[trigger] jm.to_set().contains(x) implies em.to_set().contains(x) by {
        let i = choose|i: int| 0 <= i < jm.len() && jm[i] == x;
        if i == 0 { assert(em[0] == x);
        } else if i == 1 { assert(em[0] == x);
        } else if i == 2 { assert(em[0] == x);
        } else if i == 3 { assert(em[1] == x);
        } else if i == 4 { assert(em[1] == x);
        } else if i == 5 { assert(em[2] == x);
        } else if i == 6 { assert(em[2] == x);
        } else if i == 7 { assert(em[3] == x);
        } else if i == 8 { assert(em[4] == x);
        } else if i == 9 { assert(em[4] == x);
        }
    }
    lemma_project_listing(rows, seq![0usize]);
    lemma_project_listing(employee_rows(), seq![0usize]);
}

/// In `salaryhistory`, an employee, a job date and a salary date identify
/// a tuple: the twelve tuples have twelve different such triples. Every
/// tuple names a job that `jobhistory` holds: its (man_no, jobdate) pair is
/// one of those of `jobhistory`.
pub proof fn law_salaries_name_existing_jobs()
    ensures
        salaryhistory_rows().to_set().len() == 12,
        salaryhistory_rows().to_set().contains(seq![num(1001), text("1960-01-15"), text("1961-06-01"), num(8500)]),
        forall|t: Seq<Atom>| #[trigger] salaryhistory_rows().to_set().contains(t)
            ==> project_body(jobhistory_rows().to_set(), seq![0usize, 1usize]).contains(pick(t, seq![0usize, 1usize])),
{
    reveal_strlit("1935-04-12");
    reveal_strlit("1937-06-07");
    reveal_strlit("1938-01-15");
    reveal_strlit("1940-08-23");
    reveal_strlit("1942-11-30");
    reveal_strlit("1958-11-01");
    reveal_strlit("1959-07-01");
    reveal_strlit("1960-01-15");
    reveal_strlit("1961-06-01");
    reveal_strlit("1962-09-01");
    reveal_strlit("1963-02-01");
    reveal_strlit("1963-06-01");
    reveal_strlit("1964-01-01");
    reveal_strlit("1965-01-01");
    reveal_strlit("1965-03-01");
    reveal_strlit("1966-04-01");
    reveal_strlit("1968-03-15");
    reveal_strlit("Alice Williams");
    reveal_strlit("Analyst");
    reveal_strlit("Anna");
    reveal_strlit("Carol");
    reveal_strlit("David");
    reveal_strlit("Designer");
    reveal_strlit("Draftsman");
    reveal_strlit("James Davis");
    reveal_strlit("John Smith");
    reveal_strlit("Junior Engineer");
    reveal_strlit("Linda");
    reveal_strlit("Mary Johnson");
    reveal_strlit("Peter");
    reveal_strlit("Programmer");
    reveal_strlit("Project Lead");
    reveal_strlit("Robert Brown");
    reveal_strlit("Senior Analyst");
    reveal_strlit("Senior Engineer");
    reveal_strlit("Senior Technician");
    reveal_strlit("Susan");
    reveal_strlit("Technician");
    let rows = salaryhistory_rows();
    let keys = rows.map_values(projector(seq![0usize, 1usize, 2usize]));
    assert(keys =~~= seq![seq![num(1001), text("1960-01-15"), text("1960-01-15")], seq![num(1001), text("1960-01-15"), text("1961-06-01")], seq![num(1001), text("1963-06-01"), text("1963-06-01")], seq![num(1001), text("1963-06-01"), text("1965-01-01")], seq![num(1001), text("1968-03-15"), text("1968-03-15")], seq![num(1002), text("1962-09-01"), text("1962-09-01")], seq![num(1002), text("1966-04-01"), text("1966-04-01")], seq![num(1003), text("1959-07-01"), text("1959-07-01")], seq![num(1003), text("1964-01-01"), text("1964-01-01")], seq![num(1004), text("1965-03-01"), text("1965-03-01")], seq![num(1005), text("1958-11-01"), text("1958-11-01")], seq![num(1005), text("1963-02-01"), text("1963-02-01")]]);
    assert forall|i: int, j: int| 0 <= i < j < 12 implies keys[i] != keys[j] by {
        if i == 0 && j == 1 { assert("1960-01-15"@[3] != "1961-06-01"@[3]); assert(keys[0][2] != keys[1][2]);
        } else if i == 0 && j == 2 { assert("1960-01-15"@[3] != "1963-06-01"@[3]); assert(keys[0][1] != keys[2][1]);
        } else if i == 0 && j == 3 { assert("1960-01-15"@[3] != "1963-06-01"@[3]); assert(keys[0][1] != keys[3][1]);
        } else if i == 0 && j == 4 { assert("1960-01-15"@[3] != "1968-03-15"@[3]); assert(keys[0][1] != keys[4][1]);
        } else if i == 0 && j == 5 { assert(keys[0][0] != keys[5][0]);
        } else if i == 0 && j == 6 { assert(keys[0][0] != keys[6][0]);
        } else if i == 0 && j == 7 { assert(keys[0][0] != keys[7][0]);
        } else if i == 0 && j == 8 { assert(keys[0][0] != keys[8][0]);
        } else if i == 0 && j == 9 { assert(keys[0][0] != keys[9][0]);
        } else if i == 0 && j == 10 { assert(keys[0][0] != keys[10][0]);
        } else if i == 0 && j == 11 { assert(keys[0][0] != keys[11][0]);
        } else if i == 1 && j == 2 { assert("1960-01-15"@[3] != "1963-06-01"@[3]); assert(keys[1][1] != keys[2][1]);
        } else if i == 1 && j == 3 { assert("1960-01-15"@[3] != "1963-06-01"@[3]); assert(keys[1][1] != keys[3][1]);
        } else if i == 1 && j == 4 { assert("1960-01-15"@[3] != "1968-03-15"@[3]); assert(keys[1][1] != keys[4][1]);
        } else if i == 1 && j == 5 { assert(keys[1][0] != keys[5][0]);
        } else if i == 1 && j == 6 { assert(keys[1][0] != keys[6][0]);
        } else if i == 1 && j == 7 { assert(keys[1][0] != keys[7][0]);
        } else if i == 1 && j == 8 { assert(keys[1][0] != keys[8][0]);
        } else if i == 1 && j == 9 { assert(keys[1][0] != keys[9][0]);
        } else if i == 1 && j == 10 { assert(keys[1][0] != keys[10][0]);
        } else if i == 1 && j == 11 { assert(keys[1][0] != keys[11][0]);
        } else if i == 2 && j == 3 { assert("1963-06-01"@[3] != "1965-01-01"@[3]); assert(keys[2][2] != keys[3][2]);
        } else if i == 2 && j == 4 { assert("1963-06-01"@[3] != "1968-03-15"@[3]); assert(keys[2][1] != keys[4][1]);
        } else if i == 2 && j == 5 { assert(keys[2][0] != keys[5][0]);
        } else if i == 2 && j == 6 { assert(keys[2][0] != keys[6][0]);
        } else if i == 2 && j == 7 { assert(keys[2][0] != keys[7][0]);
        } else if i == 2 && j == 8 { assert(keys[2][0] != keys[8][0]);
        } else if i == 2 && j == 9 { assert(keys[2][0] != keys[9][0]);
        } else if i == 2 && j == 10 { assert(keys[2][0] != keys[10][0]);
        } else if i == 2 && j == 11 { assert(keys[2][0] != keys[11][0]);
        } else if i == 3 && j == 4 { assert("1963-06-01"@[3] != "1968-03-15"@[3]); assert(keys[3][1] != keys[4][1]);
        } else if i == 3 && j == 5 { assert(keys[3][0] != keys[5][0]);
        } else if i == 3 && j == 6 { assert(keys[3][0] != keys[6][0]);
        } else if i == 3 && j == 7 { assert(keys[3][0] != keys[7][0]);
        } else if i == 3 && j == 8 { assert(keys[3][0] != keys[8][0]);
        } else if i == 3 && j == 9 { assert(keys[3][0] != keys[9][0]);
        } else if i == 3 && j == 10 { assert(keys[3][0] != keys[10][0]);
        } else if i == 3 && j == 11 { assert(keys[3][0] != keys[11][0]);
        } else if i == 4 && j == 5 { assert(keys[4][0] != keys[5][0]);
        } else if i == 4 && j == 6 { assert(keys[4][0] != keys[6][0]);
        } else if i == 4 && j == 7 { assert(keys[4][0] != keys[7][0]);
        } else if i == 4 && j == 8 { assert(keys[4][0] != keys[8][0]);
        } else if i == 4 && j == 9 { assert(keys[4][0] != keys[9][0]);
        } else if i == 4 && j == 10 { assert(keys[4][0] != keys[10][0]);
        } else if i == 4 && j == 11 { assert(keys[4][0] != keys[11][0]);
        } else if i == 5 && j == 6 { assert("1962-09-01"@[3] != "1966-04-01"@[3]); assert(keys[5][1] != keys[6][1]);
        } else if i == 5 && j == 7 { assert(keys[5][0] != keys[7][0]);
        } else if i == 5 && j == 8 { assert(keys[5][0] != keys[8][0]);
        } else if i == 5 && j == 9 { assert(keys[5][0] != keys[9][0]);
        } else if i == 5 && j == 10 { assert(keys[5][0] != keys[10][0]);
        } else if i == 5 && j == 11 { assert(keys[5][0] != keys[11][0]);
        } else if i == 6 && j == 7 { assert(keys[6][0] != keys[7][0]);
        } else if i == 6 && j == 8 { assert(keys[6][0] != keys[8][0]);
        } else if i == 6 && j == 9 { assert(keys[6][0] != keys[9][0]);
        } else if i == 6 && j == 10 { assert(keys[6][0] != keys[10][0]);
        } else if i == 6 && j == 11 { assert(keys[6][0] != keys[11][0]);
        } else if i == 7 && j == 8 { assert("1959-07-01"@[2] != "1964-01-01"@[2]); assert(keys[7][1] != keys[8][1]);
        } else if i == 7 && j == 9 { assert(keys[7][0] != keys[9][0]);
        } else if i == 7 && j == 10 { assert(keys[7][0] != keys[10][0]);
        } else if i == 7 && j == 11 { assert(keys[7][0] != keys[11][0]);
        } else if i == 8 && j == 9 { assert(keys[8][0] != keys[9][0]);
        } else if i == 8 && j == 10 { assert(keys[8][0] != keys[10][0]);
        } else if i == 8 && j == 11 { assert(keys[8][0] != keys[11][0]);
        } else if i == 9 && j == 10 { assert(keys[9][0] != keys[10][0]);
        } else if i == 9 && j == 11 { assert(keys[9][0] != keys[11][0]);
        } else if i == 10 && j == 11 { assert("1958-11-01"@[2] != "1963-02-01"@[2]); assert(keys[10][1] != keys[11][1]);
        }
    }
    assert(keys.no_duplicates()) by {
        assert forall|i: int, j: int| 0 <= i < 12 && 0 <= j < 12 && i != j implies keys[i] != keys[j] by {
            if j < i { assert(keys[j] != keys[i]); }
        }
    }
    lemma_key_distinct(rows, seq![0usize, 1usize, 2usize]);
    rows.unique_seq_to_set();
    assert(rows[1] == seq![num(1001), text("1960-01-15"), text("1961-06-01"), num(8500)]);
    let sm = rows.map_values(projector(seq![0usize, 1usize]));
    let jm = jobhistory_rows().map_values(projector(seq![0usize, 1usize]));
    assert(sm =~~= seq![seq![num(1001), text("1960-01-15")], seq![num(1001), text("1960-01-15")], seq![num(1001), text("1963-06-01")], seq![num(1001), text("1963-06-01")], seq![num(1001), text("1968-03-15")], seq![num(1002), text("1962-09-01")], seq![num(1002), text("1966-04-01")], seq![num(1003), text("1959-07-01")], seq![num(1003), text("1964-01-01")], seq![num(1004), text("1965-03-01")], seq![num(1005), text("1958-11-01")], seq![num(1005), text("1963-02-01")]]);
    assert(jm =~~= seq![seq![num(1001), text("1960-01-15")], seq![num(1001), text("1963-06-01")], seq![num(1001), text("1968-03-15")], seq![num(1002), text("1962-09-01")], seq![num(1002), text("1966-04-01")], seq![num(1003), text("1959-07-01")], seq![num(1003), text("1964-01-01")], seq![num(1004), text("1965-03-01")], seq![num(1005), text("1958-11-01")], seq![num(1005), text("1963-02-01")]]);
    assert forall|x: Seq<Atom>| #[trigger] sm.to_set().contains(x) implies jm.to_set().contains(x) by {
        let i = choose|i: int| 0 <= i < sm.len() && sm[i] == x;
        if i == 0 { assert(jm[0] == x);
        } else if i == 1 { assert(jm[0] == x);
        } else if i == 2 { assert(jm[1] == x);
        } else if i == 3 { assert(jm[1] == x);
        } else if i == 4 { assert(jm[2] == x);
        } else if i == 5 { assert(jm[3] == x);
        } else if i == 6 { assert(jm[4] == x);
        } else if i == 7 { assert(jm[5] == x);
        } else if i == 8 { assert(jm[6] == x);
        } else if i == 9 { assert(jm[7] == x);
        } else if i == 10 { assert(jm[8] == x);
        } else if i == 11 { assert(jm[9] == x);
        }
    }
    lemma_project_listing(jobhistory_rows(), seq![0usize, 1usize]);
    assert forall|t: Seq<Atom>| #[trigger] rows.to_set().contains(t)
        implies project_body(jobhistory_rows().to_set(), seq![0usize, 1usize]).contains(pick(t, seq![0usize, 1usize])) by {
        let i = choose|i: int| 0 <= i < rows.len() && rows[i] == t;
        assert(sm[i] == pick(t, seq![0usize, 1usize]));
        assert(sm.to_set().contains(sm[i]));
    }
}

/// Every parent in `children` is an employee of `employee`.
pub proof fn law_children_of_employees()
    ensures
        project_body(children_rows().to_set(), seq![0usize]).subset_of(project_body(employee_rows().to_set(), seq![0usize])),
{
    let cm = children_rows().map_values(projector(seq![0usize]));
    let em = employee_rows().map_values(projector(seq![0usize]));
    assert(cm =~~= seq![seq![num(1001)], seq![num(1001)], seq![num(1002)], seq![num(1003)], seq![num(1003)], seq![num(1003)], seq![num(1005)]]);
    assert(em =~~= seq![seq![num(1001)], seq![num(1002)], seq![num(1003)], seq![num(1004)], seq![num(1005)]]);
    assert forall|x: Seq<Atom>| #[trigger] cm.to_set().contains(x) implies em.to_set().contains(x) by {
        let i = choose|i: int| 0 <= i < cm.len() && cm[i] == x;
        if i == 0 { assert(em[0] == x);
        } else if i == 1 { assert(em[0] == x);
        } else if i == 2 { assert(em[1] == x);
        } else if i == 3 { assert(em[2] == x);
        } else if i == 4 { assert(em[2] == x);
        } else if i == 5 { assert(em[2] == x);
        } else if i == 6 { assert(em[4] == x);
        }
    }
    lemma_project_listing(children_rows(), seq![0usize]);
    lemma_project_listing(employee_rows(), seq![0usize]);
}

} // verus!
