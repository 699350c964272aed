//! The printed form of values and relations: a relation is drawn as a table
//! with a box-drawn frame, one column per attribute, one line per tuple in
//! the relation's order.
use vstd::prelude::*;
use vstd::utf8::encode_utf8;
use crate::value::{Atom, Value};
use crate::relation::Relation;

verus! {

/// The decimal digit `d` as text.
pub open spec fn digit_text(d: nat) -> Seq<char> {
    if d == 0 {
        "0"@
    } else if d == 1 {
        "1"@
    } else if d == 2 {
        "2"@
    } else if d == 3 {
        "3"@
    } else if d == 4 {
        "4"@
    } else if d == 5 {
        "5"@
    } else if d == 6 {
        "6"@
    } else if d == 7 {
        "7"@
    } else if d == 8 {
        "8"@
    } else {
        "9"@
    }
}

/// The decimal notation of `n`, without leading zeros.
pub open spec fn decimal(n: nat) -> Seq<char>
    decreases n,
{
    if n < 10 {
        digit_text(n)
    } else {
        decimal(n / 10) + digit_text(n % 10)
    }
}

/// The decimal notation of `n`, with a minus sign when it is negative.
pub open spec fn int_text(n: int) -> Seq<char> {
    if n < 0 {
        "-"@ + decimal((-n) as nat)
    } else {
        decimal(n as nat)
    }
}

/// The printed form of a value: an integer in decimal, a string as it is.
pub open spec fn atom_text(a: Atom) -> Seq<char> {
    match a {
        Atom::Int(n) => int_text(n as int),
        Atom::Text(s) => s,
    }
}

/// `piece`, `n` times over.
pub open spec fn repeat(piece: Seq<char>, n: nat) -> Seq<char>
    decreases n,
{
    if n == 0 {
        Seq::empty()
    } else {
        repeat(piece, (n - 1) as nat) + piece
    }
}

/// `s` followed by spaces up to `w` characters.
pub open spec fn padded(s: Seq<char>, w: nat) -> Seq<char> {
    if s.len() < w {
        s + repeat(" "@, (w - s.len()) as nat)
    } else {
        s
    }
}

/// The number of bytes of the UTF-8 encoding of `s`.
pub open spec fn byte_width(s: Seq<char>) -> nat {
    encode_utf8(s).len()
}

/// The width of column `i`: the byte length of its name or of the printed
/// value in that column of one of the first `k` rows, whichever is largest.
pub open spec fn width_upto(heading: Seq<Seq<char>>, rows: Seq<Seq<Atom>>, i: int, k: nat) -> nat
    decreases k,
{
    if k == 0 {
        byte_width(heading[i])
    } else {
        let w = width_upto(heading, rows, i, (k - 1) as nat);
        let v = byte_width(atom_text(rows[k - 1][i]));
        if v > w {
            v
        } else {
            w
        }
    }
}

/// The widths of all columns.
pub open spec fn column_widths(heading: Seq<Seq<char>>, rows: Seq<Seq<Atom>>) -> Seq<nat> {
    Seq::new(heading.len(), |i: int| width_upto(heading, rows, i, rows.len()))
}

/// The horizontal rule over the first `k` columns, with `mid` between
/// columns.
pub open spec fn rule_cells(widths: Seq<nat>, mid: Seq<char>, k: nat) -> Seq<char>
    decreases k,
{
    if k == 0 {
        Seq::empty()
    } else {
        rule_cells(widths, mid, (k - 1) as nat) + "─"@ + repeat("─"@, widths[k - 1]) + "─"@ + (if k
            < widths.len() {
            mid
        } else {
            Seq::empty()
        })
    }
}

/// A horizontal rule: `left`, the cells separated by `mid`, `right`, and a
/// line break.
pub open spec fn rule_line(widths: Seq<nat>, left: Seq<char>, mid: Seq<char>, right: Seq<char>) -> Seq<char> {
    left + rule_cells(widths, mid, widths.len()) + right
}

/// The first `k` cells of a line of the table.
pub open spec fn text_cells(texts: Seq<Seq<char>>, widths: Seq<nat>, k: nat) -> Seq<char>
    decreases k,
{
    if k == 0 {
        Seq::empty()
    } else {
        text_cells(texts, widths, (k - 1) as nat) + " "@ + padded(texts[k - 1], widths[k - 1]) + " │"@
    }
}

/// A line of the table holding `texts`, one per column.
pub open spec fn text_line(texts: Seq<Seq<char>>, widths: Seq<nat>) -> Seq<char> {
    "│"@ + text_cells(texts, widths, widths.len()) + "\n"@
}

/// The printed values of a tuple.
pub open spec fn row_texts(row: Seq<Atom>) -> Seq<Seq<char>> {
    row.map_values(|a: Atom| atom_text(a))
}

/// The lines of the first `k` tuples.
pub open spec fn body_lines(rows: Seq<Seq<Atom>>, widths: Seq<nat>, k: nat) -> Seq<char>
    decreases k,
{
    if k == 0 {
        Seq::empty()
    } else {
        body_lines(rows, widths, (k - 1) as nat) + text_line(row_texts(rows[k - 1]), widths)
    }
}

/// The printed table of a relation named `name` with heading `heading`
/// whose tuples, in order, are `rows`.
pub open spec fn table_text(name: Seq<char>, heading: Seq<Seq<char>>, rows: Seq<Seq<Atom>>) -> Seq<char> {
    if heading.len() == 0 {
        name + " (0 columns, "@ + decimal(rows.len()) + " tuples)"@
    } else {
        let w = column_widths(heading, rows);
        name + " ("@ + decimal(rows.len()) + " tuples):\n"@
            + rule_line(w, "┌"@, "┬"@, "┐"@) + "\n"@
            + text_line(heading, w)
            + rule_line(w, "├"@, "┼"@, "┤"@) + "\n"@
            + body_lines(rows, w, rows.len())
            + rule_line(w, "└"@, "┴"@, "┘"@)
    }
}

/// The text of the decimal digit `d`.
fn digit_str(d: u64) -> (s: &'static str)
    requires
        d < 10,
    ensures
        s@ == digit_text(d as nat),
{
    match d {
        0 => "0",
        1 => "1",
        2 => "2",
        3 => "3",
        4 => "4",
        5 => "5",
        6 => "6",
        7 => "7",
        8 => "8",
        _ => "9",
    }
}

/// Appends the decimal notation of `n`.
fn append_decimal(out: &mut String, n: u64)
    ensures
        final(out)@ == old(out)@ + decimal(n as nat),
    decreases n,
{
    if n >= 10 {
        append_decimal(out, n / 10);
    }
    out.append(digit_str(n % 10));
    assert(final(out)@ =~= old(out)@ + decimal(n as nat)) by {
        if n < 10 {
            assert(n % 10 == n);
        }
    }
}

impl Value {
    /// The printed form of the value.
    pub fn to_text(&self) -> (s: String)
        ensures
            s@ == atom_text(self@),
    {
        match self {
            Value::Int(n) => {
                let mut s = String::new();
                if *n < 0 {
                    s.append("-");
                    let magnitude: u64 = ((-(*n + 1)) as u64) + 1;
                    append_decimal(&mut s, magnitude);
                } else {
                    append_decimal(&mut s, *n as u64);
                }
                assert(s@ =~= atom_text(self@));
                s
            },
            Value::Str(t) => t.clone(),
        }
    }
}

/// Appends `piece`, `n` times over.
fn append_repeat(out: &mut String, piece: &str, n: usize)
    ensures
        final(out)@ == old(out)@ + repeat(piece@, n as nat),
{
    let ghost start = out@;
    let mut k: usize = 0;
    while k < n
        invariant
            k <= n,
            out@ == start + repeat(piece@, k as nat),
        decreases n - k,
    {
        out.append(piece);
        k = k + 1;
        assert(out@ =~= start + repeat(piece@, k as nat));
    }
}

/// Appends `s` followed by spaces up to `w` characters.
fn append_padded(out: &mut String, s: &str, w: usize)
    ensures
        final(out)@ == old(out)@ + padded(s@, w as nat),
{
    let ghost start = out@;
    out.append(s);
    let n = s.unicode_len();
    if n < w {
        append_repeat(out, " ", w - n);
    }
    assert(out@ =~= start + padded(s@, w as nat));
}

/// The widths held in `widths` are those of `w`.
pub open spec fn same_widths(widths: Seq<usize>, w: Seq<nat>) -> bool {
    &&& widths.len() == w.len()
    &&& forall|i: int| 0 <= i < w.len() ==> #[trigger] w[i] == widths[i] as nat
}

/// Appends a horizontal rule.
fn append_rule(out: &mut String, widths: &Vec<usize>, Ghost(w): Ghost<Seq<nat>>, left: &str, mid: &str, right: &str)
    requires
        same_widths(widths@, w),
    ensures
        final(out)@ == old(out)@ + rule_line(w, left@, mid@, right@),
{
    let ghost start = out@;
    out.append(left);
    let n = widths.len();
    let mut k: usize = 0;
    while k < n
        invariant
            k <= n,
            n == w.len(),
            same_widths(widths@, w),
            out@ == start + left@ + rule_cells(w, mid@, k as nat),
        decreases n - k,
    {
        out.append("─");
        append_repeat(out, "─", widths[k]);
        out.append("─");
        if k + 1 < n {
            out.append(mid);
        }
        k = k + 1;
        assert(out@ =~= start + left@ + rule_cells(w, mid@, k as nat));
    }
    out.append(right);
    assert(out@ =~= start + rule_line(w, left@, mid@, right@));
}

/// Appends a line of the table holding `texts`.
fn append_line(out: &mut String, texts: &Vec<String>, widths: &Vec<usize>, Ghost(w): Ghost<Seq<nat>>)
    requires
        same_widths(widths@, w),
        texts.len() == widths.len(),
    ensures
        final(out)@ == old(out)@ + text_line(texts.deep_view(), w),
{
    let ghost start = out@;
    out.append("│");
    let n = widths.len();
    let mut k: usize = 0;
    while k < n
        invariant
            k <= n,
            n == w.len(),
            texts.len() == n,
            same_widths(widths@, w),
            out@ == start + "│"@ + text_cells(texts.deep_view(), w, k as nat),
        decreases n - k,
    {
        out.append(" ");
        append_padded(out, texts[k].as_str(), widths[k]);
        out.append(" │");
        k = k + 1;
        assert(out@ =~= start + "│"@ + text_cells(texts.deep_view(), w, k as nat));
    }
    out.append("\n");
    assert(out@ =~= start + text_line(texts.deep_view(), w));
}

/// The printed values of the tuple `row`.
fn row_strings(row: &Vec<Value>) -> (v: Vec<String>)
    ensures
        v.deep_view() == row_texts(row.deep_view()),
{
    let mut v: Vec<String> = Vec::new();
    let mut i: usize = 0;
    while i < row.len()
        invariant
            i <= row.len(),
            v.deep_view() == row_texts(row.deep_view()).take(i as int),
        decreases row.len() - i,
    {
        let ghost prev = v@;
        let ghost prev_dv = v.deep_view();
        assert(prev_dv.len() == i);
        v.push(row[i].to_text());
        assert forall|k: int| 0 <= k < i + 1 implies #[trigger] v.deep_view()[k] == row_texts(row.deep_view())[k] by {
            if k < i {
                assert(v@[k] == prev[k]);
                assert(prev_dv[k] == row_texts(row.deep_view())[k]);
            }
        }
        assert(v.deep_view() =~= row_texts(row.deep_view()).take(i + 1));
        i = i + 1;
    }
    assert(row_texts(row.deep_view()).take(i as int) =~= row_texts(row.deep_view()));
    v
}

/// The number of bytes of the UTF-8 encoding of `s`.
fn byte_len(s: &str) -> (n: usize)
    ensures
        n == byte_width(s@),
{
    s.as_bytes().len()
}

impl Relation {
    /// The relation printed as a table: its name and number of tuples, then
    /// a framed table with the column names and one line per tuple, in the
    /// relation's order; each column is as wide as its widest entry in
    /// bytes.
    pub fn render(&self) -> (s: String)
        ensures
            s@ == table_text(self.title(), self.heading(), self.listing()),
    {
        self.well_formed();
        let ghost heading = self.heading();
        let ghost rows = self.listing();
        let columns = self.columns();
        let tuples = self.tuples();
        let n = columns.len();
        let count = tuples.len();
        let mut out = String::new();
        out.append(self.name());
        if n == 0 {
            out.append(" (0 columns, ");
            append_decimal(&mut out, count as u64);
            out.append(" tuples)");
            assert(out@ =~= table_text(self.title(), heading, rows));
            return out;
        }
        // Column widths.
        let mut widths: Vec<usize> = Vec::new();
        let mut i: usize = 0;
        while i < n
            invariant
                i <= n,
                n == heading.len(),
                columns.deep_view() == heading,
                widths@.len() == i,
                forall|c: int| 0 <= c < i ==> #[trigger] widths@[c] as nat == width_upto(heading, rows, c, 0),
            decreases n - i,
        {
            widths.push(byte_len(columns[i].as_str()));
            i = i + 1;
        }
        let mut k: usize = 0;
        while k < count
            invariant
                k <= count,
                count == rows.len(),
                n == heading.len(),
                rows == tuples.items(),
                crate::relation::uniform_arity(rows.to_set(), heading.len()),
                widths@.len() == n,
                forall|c: int| 0 <= c < n ==> #[trigger] widths@[c] as nat == width_upto(heading, rows, c, k as nat),
            decreases count - k,
        {
            let row = tuples.row(k);
            assert(rows.to_set().contains(rows[k as int]));
            let mut c: usize = 0;
            while c < n
                invariant
                    k < count,
                    c <= n,
                    count == rows.len(),
                    n == heading.len(),
                    row.len() == n,
                    row.deep_view() == rows[k as int],
                    widths@.len() == n,
                    forall|d: int| 0 <= d < c ==> #[trigger] widths@[d] as nat == width_upto(heading, rows, d, (k + 1) as nat),
                    forall|d: int| c <= d < n ==> #[trigger] widths@[d] as nat == width_upto(heading, rows, d, k as nat),
                decreases n - c,
            {
                let text = row[c].to_text();
                let v = byte_len(text.as_str());
                if v > widths[c] {
                    widths.set(c, v);
                }
                c = c + 1;
            }
            k = k + 1;
        }
        let ghost w = column_widths(heading, rows);
        assert(same_widths(widths@, w));
        out.append(" (");
        append_decimal(&mut out, count as u64);
        out.append(" tuples):\n");
        append_rule(&mut out, &widths, Ghost(w), "┌", "┬", "┐");
        out.append("\n");
        append_line(&mut out, columns, &widths, Ghost(w));
        append_rule(&mut out, &widths, Ghost(w), "├", "┼", "┤");
        out.append("\n");
        let ghost before_rows = out@;
        let mut k: usize = 0;
        while k < count
            invariant
                k <= count,
                count == rows.len(),
                n == heading.len(),
                rows == tuples.items(),
                crate::relation::uniform_arity(rows.to_set(), heading.len()),
                same_widths(widths@, w),
                widths@.len() == n,
                out@ == before_rows + body_lines(rows, w, k as nat),
            decreases count - k,
        {
            let row = tuples.row(k);
            assert(rows.to_set().contains(rows[k as int]));
            let texts = row_strings(row);
            assert(row.deep_view().len() == n);
            assert(texts.deep_view().len() == texts.len());
            append_line(&mut out, &texts, &widths, Ghost(w));
            k = k + 1;
            assert(out@ =~= before_rows + body_lines(rows, w, k as nat));
        }
        append_rule(&mut out, &widths, Ghost(w), "└", "┴", "┘");
        assert(out@ =~= table_text(self.title(), heading, rows));
        out
    }
}

} // verus!
