//! Rendering of query results into the fixed-width text table the command
//! surfaces display. The query itself runs in the shell against the
//! snapshot database; this module owns only the presentation of the rows
//! it hands back.
use crate::strings::views;
use crate::utils::{dec_digits, pad_left, pad_right, push_padded_left, push_padded_right, push_u64};
use vstd::prelude::*;

verus! {

/// One frame of an allocation's callstack.
pub struct Frame {
    pub name: String,
    pub filename: String,
    pub line: u32,
}

impl Frame {
    /// The rendering of the frame in a callstack listing.
    pub open spec fn spec_line_text(self) -> Seq<char> {
        "  at "@ + self.name@ + " ("@ + self.filename@ + seq![':'] + dec_digits(self.line as nat)
            + seq![')']
    }

    /// Render the frame for a callstack listing.
    pub fn line_text(&self) -> (r: String)
        ensures
            r@ == self.spec_line_text(),
    {
        let mut out: String = String::new();
        out.append("  at ");
        out.append(self.name.as_str());
        out.append(" (");
        out.append(self.filename.as_str());
        out.append(":");
        push_u64(&mut out, self.line as u64);
        out.append(")");
        proof {
            reveal_strlit(":");
            reveal_strlit(")");
            assert(out@ =~= self.spec_line_text());
        }
        out
    }
}

/// The database schema shown by the command surfaces.
pub open spec fn create_table_text() -> Seq<char> {
    "CREATE TABLE allocs (\n    idx INTEGER PRIMARY KEY,\n    size INTEGER,\n    start_time INTEGER,\n    end_time INTEGER,\n    callstack TEXT\n);"@
}

/// Build the schema text.
pub fn create_table_sql() -> (r: String)
    ensures
        r@ == create_table_text(),
{
    String::from_str(
        "CREATE TABLE allocs (\n    idx INTEGER PRIMARY KEY,\n    size INTEGER,\n    start_time INTEGER,\n    end_time INTEGER,\n    callstack TEXT\n);",
    )
}

/// The horizontal rule between table rows.
pub open spec fn sep_line() -> Seq<char> {
    "+------------------------+------------------------+\n"@
}

/// The table cells of one row's first `n` columns, skipping the callstack
/// column (it is rendered separately, below the table).
pub open spec fn row_cells(cols: Seq<Seq<char>>, vals: Seq<Seq<char>>, n: int) -> Seq<char>
    decreases n,
{
    if n <= 0 {
        Seq::empty()
    } else {
        row_cells(cols, vals, n - 1) + (if cols[n - 1] == "callstack"@ {
            Seq::<char>::empty()
        } else {
            "| "@ + pad_right(cols[n - 1], 22) + " | "@ + pad_right(vals[n - 1], 22) + " |\n"@
        })
    }
}

/// Whether one of the first `n` columns is the callstack.
pub open spec fn has_callstack(cols: Seq<Seq<char>>, n: int) -> bool
    decreases n,
{
    if n <= 0 {
        false
    } else {
        cols[n - 1] == "callstack"@ || has_callstack(cols, n - 1)
    }
}

/// The value of the last callstack column among the first `n`.
pub open spec fn callstack_val(cols: Seq<Seq<char>>, vals: Seq<Seq<char>>, n: int) -> Seq<char>
    decreases n,
{
    if n <= 0 {
        Seq::empty()
    } else if cols[n - 1] == "callstack"@ {
        vals[n - 1]
    } else {
        callstack_val(cols, vals, n - 1)
    }
}

/// One row's block: its number, the cell table, and the callstack below
/// it when the row has one. Cells pair the column names with the row's
/// values, up to the shorter of the two.
pub open spec fn row_block(idx: int, cols: Seq<Seq<char>>, vals: Seq<Seq<char>>) -> Seq<char> {
    let n = if cols.len() <= vals.len() {
        cols.len() as int
    } else {
        vals.len() as int
    };
    "\n\nRow "@ + pad_left(dec_digits(idx as nat), 3) + ":\n"@ + sep_line() + row_cells(
        cols,
        vals,
        n,
    ) + sep_line() + (if has_callstack(cols, n) {
        "callstack:\n"@ + callstack_val(cols, vals, n)
    } else {
        Seq::<char>::empty()
    })
}

/// The blocks of the first `n` rows.
pub open spec fn rows_blocks(cols: Seq<Seq<char>>, rows: Seq<Seq<Seq<char>>>, n: int) -> Seq<char>
    decreases n,
{
    if n <= 0 {
        Seq::empty()
    } else {
        rows_blocks(cols, rows, n - 1) + row_block(n - 1, cols, rows[n - 1])
    }
}

/// The views of a vector of rows.
pub open spec fn rows_views(rows: Seq<Vec<String>>) -> Seq<Seq<Seq<char>>> {
    rows.map_values(|r: Vec<String>| views(r@))
}

/// Render query results as the text table the command surfaces display: a
/// banner, one block per row with fixed-width cells, and each row's
/// callstack below its table.
/// Render one row's block.
fn format_row_block(idx: u64, column_names: &Vec<String>, row: &Vec<String>) -> (out: String)
    ensures
        out@ == row_block(idx as int, views(column_names@), views(row@)),
{
    let nvals: usize = row.len();
    let ncols: usize = column_names.len();
    let n: usize = if ncols <= nvals {
        ncols
    } else {
        nvals
    };
    let mut out: String = String::new();
    out.append("\n\nRow ");
    let mut num: String = String::new();
    push_u64(&mut num, idx);
    push_padded_left(&mut out, num.as_str(), 3);
    out.append(":\n");
    out.append("+------------------------+------------------------+\n");
    proof {
        assert(out@ =~= "\n\nRow "@ + pad_left(dec_digits(idx as nat), 3) + ":\n"@
            + sep_line());
    }
    let ghost prefix = out@;
    let mut c: usize = 0;
    let mut callstack: Option<String> = None;
    while c < n
        invariant
            nvals == row@.len(),
            ncols == column_names@.len(),
            n <= ncols,
            n <= nvals,
            0 <= c <= n,
            out@ == prefix + row_cells(views(column_names@), views(row@), c as int),
            match callstack {
                Some(v) => has_callstack(views(column_names@), c as int) && v@ == callstack_val(
                    views(column_names@),
                    views(row@),
                    c as int,
                ),
                None => !has_callstack(views(column_names@), c as int),
            },
        decreases n - c,
    {
        let col = &column_names[c];
        let val = &row[c];
        if crate::strings::str_eq(col.as_str(), "callstack") {
            callstack = Some(val.clone());
        } else {
            out.append("| ");
            push_padded_right(&mut out, col.as_str(), 22);
            out.append(" | ");
            push_padded_right(&mut out, val.as_str(), 22);
            out.append(" |\n");
        }
        proof {
            assert(out@ =~= prefix + row_cells(views(column_names@), views(row@), c + 1));
        }
        c = c + 1;
    }
    out.append("+------------------------+------------------------+\n");
    match callstack {
        Some(v) => {
            out.append("callstack:\n");
            out.append(v.as_str());
            proof {
                assert(out@ =~= row_block(idx as int, views(column_names@), views(row@)));
            }
        },
        None => {
            proof {
                assert(out@ =~= row_block(idx as int, views(column_names@), views(row@)));
            }
        },
    }
    out
}

/// Render query results as the text table the command surfaces display: a
/// banner, one block per row with fixed-width cells, and each row's
/// callstack below its table.
pub fn format_query_rows(column_names: &Vec<String>, rows: &Vec<Vec<String>>) -> (out: String)
    ensures
        out@ == "\n========== SQL Query Results ==========\n"@ + rows_blocks(
            views(column_names@),
            rows_views(rows@),
            rows@.len() as int,
        ),
{
    let mut out: String = String::new();
    out.append("\n========== SQL Query Results ==========\n");
    let nrows: usize = rows.len();
    let mut r: usize = 0;
    while r < nrows
        invariant
            nrows == rows@.len(),
            0 <= r <= nrows,
            out@ == "\n========== SQL Query Results ==========\n"@ + rows_blocks(
                views(column_names@),
                rows_views(rows@),
                r as int,
            ),
        decreases nrows - r,
    {
        let block: String = format_row_block(r as u64, column_names, &rows[r]);
        out.append(block.as_str());
        proof {
            assert(rows_views(rows@)[r as int] == views(rows@[r as int]@));
            assert(out@ =~= "\n========== SQL Query Results ==========\n"@ + rows_blocks(
                views(column_names@),
                rows_views(rows@),
                r + 1,
            ));
        }
        r = r + 1;
    }
    out
}

} // verus!
