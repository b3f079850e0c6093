//! The profile table of `list`: column widths and the text of each row.
use vstd::prelude::*;
use crate::style::{colorize_cell, colorized};
use crate::text::{append_padded_right, append_str, pad_right};

verus! {

/// The column headings.
pub open spec fn heading(i: int) -> Seq<char> {
    if i == 0 {
        "PROFILE"@
    } else if i == 1 {
        "PLAN"@
    } else if i == 2 {
        "5H LEFT"@
    } else if i == 3 {
        "5H RESET"@
    } else if i == 4 {
        "WEEKLY LEFT"@
    } else {
        "WEEKLY RESET"@
    }
}

/// The number of columns.
pub const COLUMNS: usize = 6;

/// The column headings, in order.
pub fn headings() -> (r: Vec<String>)
    ensures
        r@.len() == COLUMNS,
        forall|i: int| 0 <= i < COLUMNS ==> #[trigger] r@[i]@ == heading(i),
{
    let mut r: Vec<String> = Vec::new();
    r.push(String::from_str("PROFILE"));
    r.push(String::from_str("PLAN"));
    r.push(String::from_str("5H LEFT"));
    r.push(String::from_str("5H RESET"));
    r.push(String::from_str("WEEKLY LEFT"));
    r.push(String::from_str("WEEKLY RESET"));
    r
}

/// The width of column `i` over the first `n` rows: the widest of its
/// heading and its cells, counted in characters.
pub open spec fn column_width(rows: Seq<Vec<String>>, n: int, i: int) -> nat
    decreases n,
{
    if n <= 0 {
        heading(i).len()
    } else {
        let w = column_width(rows, n - 1, i);
        let row = rows[n - 1]@;
        if i < row.len() && row[i]@.len() > w {
            row[i]@.len()
        } else {
            w
        }
    }
}

/// The width of each column for these rows.
pub fn table_widths(rows: &Vec<Vec<String>>) -> (widths: Vec<usize>)
    requires
        forall|r: int| 0 <= r < rows@.len() ==> #[trigger] rows@[r]@.len() <= COLUMNS,
    ensures
        widths@.len() == COLUMNS,
        forall|i: int| 0 <= i < COLUMNS ==> #[trigger] widths@[i] as nat == column_width(rows@, rows@.len() as int, i),
{
    let hs = headings();
    let mut widths: Vec<usize> = Vec::new();
    let mut i: usize = 0;
    while i < COLUMNS
        invariant
            i <= COLUMNS,
            hs@.len() == COLUMNS,
            forall|k: int| 0 <= k < COLUMNS ==> #[trigger] hs@[k]@ == heading(k),
            widths@.len() == i,
            forall|k: int| 0 <= k < i ==> #[trigger] widths@[k] as nat == heading(k).len(),
        decreases COLUMNS - i,
    {
        widths.push(hs[i].as_str().unicode_len());
        i = i + 1;
    }
    let mut r: usize = 0;
    while r < rows.len()
        invariant
            r <= rows@.len(),
            forall|q: int| 0 <= q < rows@.len() ==> #[trigger] rows@[q]@.len() <= COLUMNS,
            widths@.len() == COLUMNS,
            forall|k: int| 0 <= k < COLUMNS ==> #[trigger] widths@[k] as nat == column_width(rows@, r as int, k),
        decreases rows@.len() - r,
    {
        let row = &rows[r];
        let mut j: usize = 0;
        while j < row.len()
            invariant
                r < rows@.len(),
                row == rows@[r as int],
                row@.len() <= COLUMNS,
                j <= row@.len(),
                widths@.len() == COLUMNS,
                forall|k: int| 0 <= k < j ==> #[trigger] widths@[k] as nat == column_width(rows@, r + 1, k),
                forall|k: int| j <= k < COLUMNS ==> #[trigger] widths@[k] as nat == column_width(rows@, r as int, k),
            decreases row@.len() - j,
        {
            let len = row[j].as_str().unicode_len();
            if len > widths[j] {
                widths.set(j, len);
            }
            j = j + 1;
        }
        proof {
            assert forall|k: int| row@.len() <= k < COLUMNS implies #[trigger] widths@[k] as nat == column_width(rows@, r + 1, k) by {}
        }
        r = r + 1;
    }
    widths
}

/// Cell `i` of a row: padded to its column's width, except the last.
pub open spec fn cell_text(row: Seq<String>, widths: Seq<usize>, i: int) -> Seq<char> {
    if i + 1 == row.len() {
        row[i]@
    } else {
        pad_right(row[i]@, widths[i] as nat)
    }
}

/// The first `n` cells of a row, two spaces apart, each in its color.
pub open spec fn row_text(
    row: Seq<String>,
    widths: Seq<usize>,
    header: bool,
    colors: bool,
    remaining: Seq<String>,
    n: int,
) -> Seq<char>
    decreases n,
{
    if n <= 0 {
        Seq::empty()
    } else {
        let before = row_text(row, widths, header, colors, remaining, n - 1);
        let sep = if n - 1 > 0 {
            "  "@
        } else {
            Seq::empty()
        };
        before + sep + colorized(
            cell_text(row, widths, n - 1),
            row[n - 1]@,
            (n - 1) as nat,
            header,
            colors,
            remaining[n - 1]@,
        )
    }
}

/// A table row; `remaining[i]` is the color for the quota level cell `i`
/// shows.
pub fn table_row(
    row: &Vec<String>,
    widths: &Vec<usize>,
    header: bool,
    colors: bool,
    remaining: &Vec<String>,
) -> (r: String)
    requires
        row@.len() <= widths@.len() + 1,
        remaining@.len() == row@.len(),
    ensures
        r@ == row_text(row@, widths@, header, colors, remaining@, row@.len() as int),
{
    let mut out = String::new();
    let mut i: usize = 0;
    while i < row.len()
        invariant
            row@.len() <= widths@.len() + 1,
            remaining@.len() == row@.len(),
            i <= row@.len(),
            out@ == row_text(row@, widths@, header, colors, remaining@, i as int),
        decreases row@.len() - i,
    {
        let ghost before = out@;
        if 0 < i {
            append_str(&mut out, "  ");
        }
        let value = row[i].as_str();
        let mut cell = String::new();
        if i + 1 == row.len() {
            append_str(&mut cell, value);
        } else {
            append_padded_right(&mut cell, value, widths[i]);
        }
        assert(cell@ =~= cell_text(row@, widths@, i as int));
        let colored = colorize_cell(cell.as_str(), value, i, header, colors, remaining[i].as_str());
        append_str(&mut out, colored.as_str());
        proof {
            if i == 0 {
                assert(before + Seq::<char>::empty() =~= before);
            }
        }
        i = i + 1;
    }
    out
}

} // verus!
