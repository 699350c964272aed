//! What the printed forms say: an integer's text is its decimal notation,
//! a table states how many tuples the relation has, and each column is as
//! wide as its widest entry.
use vstd::prelude::*;
use crate::value::Atom;
use vstd::utf8::{encode_scalar, encode_utf8};
use crate::render::{
    atom_text, byte_width, column_widths, decimal, digit_text, padded, repeat, row_texts, rule_cells, rule_line,
    table_text, text_cells, text_line, width_upto,
};

verus! {

/// `c` is one of the digits `0` to `9`.
pub open spec fn is_digit(c: char) -> bool {
    48 <= (c as u32) && (c as u32) <= 57
}

/// Every character of `s` is a digit.
pub open spec fn all_digits(s: Seq<char>) -> bool {
    forall|i: int| 0 <= i < s.len() ==> is_digit(#[trigger] s[i])
}

/// The number that the digits `s` denote in base ten.
pub open spec fn digits_value(s: Seq<char>) -> int
    decreases s.len(),
{
    if s.len() == 0 {
        0
    } else {
        digits_value(s.drop_last()) * 10 + ((s.last() as u32) - 48)
    }
}

proof fn lemma_digit_text(d: nat)
    requires
        d < 10,
    ensures
        digit_text(d).len() == 1,
        is_digit(digit_text(d)[0]),
        (digit_text(d)[0] as u32) - 48 == d,
{
    reveal_strlit("0");
    reveal_strlit("1");
    reveal_strlit("2");
    reveal_strlit("3");
    reveal_strlit("4");
    reveal_strlit("5");
    reveal_strlit("6");
    reveal_strlit("7");
    reveal_strlit("8");
    reveal_strlit("9");
}

/// The decimal notation of `n` is a non-empty string of digits that denotes
/// `n` and begins with `0` only when `n` is 0.
pub proof fn law_decimal_notation(n: nat)
    ensures
        decimal(n).len() >= 1,
        all_digits(decimal(n)),
        digits_value(decimal(n)) == n,
        decimal(n)[0] == '0' ==> n == 0,
    decreases n,
{
    if n < 10 {
        lemma_digit_text(n);
        let s = decimal(n);
        assert(s.drop_last() =~= Seq::<char>::empty());
        assert(digits_value(s.drop_last()) == 0);
        assert(s.last() == s[0]);
        assert(digits_value(s) == n);
        if s[0] == '0' {
            assert((s[0] as u32) - 48 == 0);
        }
    } else {
        law_decimal_notation(n / 10);
        lemma_digit_text(n % 10);
        let p = decimal(n / 10);
        let s = decimal(n);
        assert(s == p + digit_text(n % 10));
        assert(s.drop_last() =~= p);
        assert(s.last() == digit_text(n % 10)[0]);
        assert(s[0] == p[0]);
        assert forall|i: int| 0 <= i < s.len() implies is_digit(#[trigger] s[i]) by {
            if i < p.len() {
                assert(s[i] == p[i]);
            }
        }
        assert(n == (n / 10) * 10 + n % 10);
        assert(digits_value(s) == digits_value(p) * 10 + ((s.last() as u32) - 48));
        assert(digits_value(s) == n);
    }
}

/// The printed form of an integer: its decimal notation, after a minus sign
/// when it is negative; the digits denote its magnitude, with no leading
/// zero.
pub proof fn law_integer_text(n: i64)
    ensures
        n >= 0 ==> all_digits(atom_text(Atom::Int(n))) && digits_value(atom_text(Atom::Int(n))) == n
            && atom_text(Atom::Int(n)).len() >= 1 && (atom_text(Atom::Int(n))[0] == '0' ==> n == 0),
        n < 0 ==> atom_text(Atom::Int(n))[0] == '-' && all_digits(atom_text(Atom::Int(n)).drop_first())
            && digits_value(atom_text(Atom::Int(n)).drop_first()) == -n
            && atom_text(Atom::Int(n)).len() >= 2 && atom_text(Atom::Int(n))[1] != '0',
{
    if n >= 0 {
        law_decimal_notation(n as nat);
    } else {
        law_decimal_notation((-n) as nat);
        reveal_strlit("-");
        let d = decimal((-n) as nat);
        let t = atom_text(Atom::Int(n));
        assert(t == "-"@ + d);
        assert(t.drop_first() =~= d);
        assert(t[1] == d[0]);
    }
}

/// The first line of a table names the relation and states its number of
/// tuples in full: the digits between the name and the word "tuples"
/// denote how many tuples the listing holds.
pub proof fn law_table_states_cardinality(name: Seq<char>, heading: Seq<Seq<char>>, rows: Seq<Seq<Atom>>)
    ensures
        exists|d: Seq<char>| #![trigger digits_value(d)] {
            &&& all_digits(d)
            &&& digits_value(d) == rows.len()
            &&& heading.len() > 0 ==> table_text(name, heading, rows).take((name + " ("@ + d + " tuples):\n"@).len() as int)
                == name + " ("@ + d + " tuples):\n"@
            &&& heading.len() == 0 ==> table_text(name, heading, rows) == name + " (0 columns, "@ + d + " tuples)"@
        },
{
    let d = decimal(rows.len());
    law_decimal_notation(rows.len());
    let p = name + " ("@ + d + " tuples):\n"@;
    if heading.len() > 0 {
        let t = table_text(name, heading, rows);
        assert(t.take(p.len() as int) =~= p);
    }
    assert({
        &&& all_digits(d)
        &&& digits_value(d) == rows.len()
        &&& heading.len() > 0 ==> table_text(name, heading, rows).take((name + " ("@ + d + " tuples):\n"@).len() as int)
            == name + " ("@ + d + " tuples):\n"@
        &&& heading.len() == 0 ==> table_text(name, heading, rows) == name + " (0 columns, "@ + d + " tuples)"@
    });
}

/// Each column of a table is as wide, in bytes, as its name and as every
/// printed value in it, and no wider than the widest of them.
pub proof fn law_column_width(heading: Seq<Seq<char>>, rows: Seq<Seq<Atom>>, i: int)
    requires
        0 <= i < heading.len(),
    ensures
        column_widths(heading, rows)[i] >= byte_width(heading[i]),
        forall|k: int| 0 <= k < rows.len() ==> column_widths(heading, rows)[i] >= byte_width(atom_text(#[trigger] rows[k][i])),
        column_widths(heading, rows)[i] == byte_width(heading[i])
            || exists|k: int| 0 <= k < rows.len() && column_widths(heading, rows)[i] == byte_width(atom_text(#[trigger] rows[k][i])),
{
    lemma_width_upto(heading, rows, i, rows.len());
}

proof fn lemma_width_upto(heading: Seq<Seq<char>>, rows: Seq<Seq<Atom>>, i: int, m: nat)
    ensures
        width_upto(heading, rows, i, m) >= byte_width(heading[i]),
        forall|k: int| 0 <= k < m ==> width_upto(heading, rows, i, m) >= byte_width(atom_text(#[trigger] rows[k][i])),
        width_upto(heading, rows, i, m) == byte_width(heading[i])
            || exists|k: int| 0 <= k < m && width_upto(heading, rows, i, m) == byte_width(atom_text(#[trigger] rows[k][i])),
    decreases m,
{
    if m > 0 {
        lemma_width_upto(heading, rows, i, (m - 1) as nat);
        let w = width_upto(heading, rows, i, (m - 1) as nat);
        let v = byte_width(atom_text(rows[m - 1][i]));
        if v <= w {
            if w != byte_width(heading[i]) {
                let k = choose|k: int| 0 <= k < m - 1 && w == byte_width(atom_text(#[trigger] rows[k][i]));
                assert(0 <= k < m && width_upto(heading, rows, i, m) == byte_width(atom_text(rows[k][i])));
            }
        } else {
            assert(0 <= m - 1 < m && width_upto(heading, rows, i, m) == byte_width(atom_text(rows[m - 1][i])));
        }
    }
}

/// A string has at least as many bytes as characters.
proof fn lemma_bytes_at_least_chars(s: Seq<char>)
    ensures
        byte_width(s) >= s.len(),
    decreases s.len(),
{
    if s.len() > 0 {
        lemma_bytes_at_least_chars(s.drop_first());
        assert(encode_scalar(s[0] as u32).len() >= 1);
        assert(encode_utf8(s) == encode_scalar(s[0] as u32) + encode_utf8(s.drop_first()));
    }
}

proof fn lemma_repeat_len(piece: Seq<char>, n: nat)
    requires
        piece.len() == 1,
    ensures
        repeat(piece, n).len() == n,
    decreases n,
{
    if n > 0 {
        lemma_repeat_len(piece, (n - 1) as nat);
    }
}

/// The width of the first `k` cells of a line: each cell is its column's
/// width plus a space on either side and one frame character.
pub open spec fn cells_width(w: Seq<nat>, k: nat) -> nat
    decreases k,
{
    if k == 0 {
        0
    } else {
        cells_width(w, (k - 1) as nat) + w[k - 1] + 3
    }
}

proof fn lemma_rule_cells_len(w: Seq<nat>, mid: Seq<char>, k: nat)
    requires
        mid.len() == 1,
        1 <= k <= w.len(),
    ensures
        rule_cells(w, mid, k).len() + (if k == w.len() { 1int } else { 0int }) == cells_width(w, k),
    decreases k,
{
    reveal_strlit("─");
    lemma_repeat_len("─"@, w[k - 1]);
    if k > 1 {
        lemma_rule_cells_len(w, mid, (k - 1) as nat);
    } else {
        assert(rule_cells(w, mid, 0).len() == 0);
        assert(cells_width(w, 0) == 0);
    }
    let tail: Seq<char> = if k < w.len() { mid } else { Seq::empty() };
    assert(rule_cells(w, mid, k) == rule_cells(w, mid, (k - 1) as nat) + "─"@ + repeat("─"@, w[k - 1]) + "─"@ + tail);
    assert(tail.len() == (if k < w.len() { 1int } else { 0int }));
}

proof fn lemma_text_cells_len(texts: Seq<Seq<char>>, w: Seq<nat>, k: nat)
    requires
        k <= w.len(),
        k <= texts.len(),
        forall|i: int| 0 <= i < k ==> #[trigger] texts[i].len() <= w[i],
    ensures
        text_cells(texts, w, k).len() == cells_width(w, k),
    decreases k,
{
    reveal_strlit(" ");
    reveal_strlit(" │");
    if k > 0 {
        lemma_text_cells_len(texts, w, (k - 1) as nat);
        let t = texts[k - 1];
        if t.len() < w[k - 1] {
            lemma_repeat_len(" "@, (w[k - 1] - t.len()) as nat);
        }
        assert(padded(t, w[k - 1]).len() == w[k - 1]);
    }
}

/// Every line of a table is equally wide: the three rules, the line of
/// column names and the line of each tuple (each less its line break) have
/// the same number of characters, so every value fits inside the frame.
pub proof fn law_table_lines_equally_wide(heading: Seq<Seq<char>>, rows: Seq<Seq<Atom>>)
    requires
        heading.len() > 0,
        forall|k: int| 0 <= k < rows.len() ==> #[trigger] rows[k].len() == heading.len(),
    ensures
        rule_line(column_widths(heading, rows), "├"@, "┼"@, "┤"@).len()
            == rule_line(column_widths(heading, rows), "┌"@, "┬"@, "┐"@).len(),
        rule_line(column_widths(heading, rows), "└"@, "┴"@, "┘"@).len()
            == rule_line(column_widths(heading, rows), "┌"@, "┬"@, "┐"@).len(),
        text_line(heading, column_widths(heading, rows)).len()
            == rule_line(column_widths(heading, rows), "┌"@, "┬"@, "┐"@).len() + 1,
        forall|k: int| 0 <= k < rows.len() ==> #[trigger] text_line(row_texts(rows[k]), column_widths(heading, rows)).len()
            == rule_line(column_widths(heading, rows), "┌"@, "┬"@, "┐"@).len() + 1,
{
    let w = column_widths(heading, rows);
    let n = heading.len();
    reveal_strlit("┌");
    reveal_strlit("┬");
    reveal_strlit("┐");
    reveal_strlit("├");
    reveal_strlit("┼");
    reveal_strlit("┤");
    reveal_strlit("└");
    reveal_strlit("┴");
    reveal_strlit("┘");
    reveal_strlit("│");
    reveal_strlit("\n");
    lemma_rule_cells_len(w, "┬"@, n);
    lemma_rule_cells_len(w, "┼"@, n);
    lemma_rule_cells_len(w, "┴"@, n);
    assert forall|i: int| 0 <= i < n implies #[trigger] heading[i].len() <= w[i] by {
        law_column_width(heading, rows, i);
        lemma_bytes_at_least_chars(heading[i]);
    }
    lemma_text_cells_len(heading, w, n);
    assert forall|k: int| 0 <= k < rows.len() implies #[trigger] text_line(row_texts(rows[k]), w).len() == rule_line(w, "┌"@, "┬"@, "┐"@).len() + 1 by {
        let texts = row_texts(rows[k]);
        assert forall|i: int| 0 <= i < n implies #[trigger] texts[i].len() <= w[i] by {
            law_column_width(heading, rows, i);
            lemma_bytes_at_least_chars(atom_text(rows[k][i]));
            assert(texts[i] == atom_text(rows[k][i]));
        }
        lemma_text_cells_len(texts, w, n);
    }
}

} // verus!
