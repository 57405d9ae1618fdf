//! Tables: a grid of inline text, padded so that the columns line up.

use crate::block::{Block, BlockMeta};
use crate::rich_text::{spans_markdown, RichText, RichTextVec};
use crate::text::{
    display_width, lemma_width_of_concat, lemma_width_of_repeated_ascii, repeat_char, repeated,
    width_of,
};
use vstd::prelude::*;
use vstd::string::*;

verus! {

/// What a table says of itself: the number of its columns.
#[derive(Debug, Clone, PartialEq, Eq)]
pub struct TableContent {
    pub table_width: usize,
}

/// A table. Its rows are those of its children that are table rows.
#[derive(Debug, PartialEq, Eq)]
pub struct Table {
    pub table: TableContent,
    pub children: Vec<Block>,
    pub meta: BlockMeta,
}

/// What a table row holds: its cells, each a run of spans.
#[derive(Debug, Clone, PartialEq, Eq)]
pub struct TableRowContent {
    pub cells: Vec<Vec<RichText>>,
}

/// One row of a table. It has a rendering only inside its table.
#[derive(Debug, Clone, PartialEq, Eq)]
pub struct TableRow {
    pub table_row: TableRowContent,
}

/// The rendered cells of one row.
pub open spec fn row_texts(cells: Seq<Vec<RichText>>) -> Seq<Seq<char>> {
    Seq::new(cells.len(), |j: int| spans_markdown(cells[j]@))
}

/// The rendered rows of a table: one for each child that is a table row, in
/// their order. Other children are passed over.
pub open spec fn table_rows(children: Seq<Block>) -> Seq<Seq<Seq<char>>>
    decreases children.len(),
{
    if children.len() == 0 {
        Seq::empty()
    } else {
        let before = table_rows(children.drop_last());
        match children.last() {
            Block::TableRow(row) => before.push(row_texts(row.table_row.cells@)),
            _ => before,
        }
    }
}

/// The larger of two numbers.
pub open spec fn max_nat(a: nat, b: nat) -> nat {
    if a >= b {
        a
    } else {
        b
    }
}

/// The width of column `j`: that of its widest cell over all rows.
pub open spec fn column_width(rows: Seq<Seq<Seq<char>>>, j: int) -> nat
    decreases rows.len(),
{
    if rows.len() == 0 {
        0
    } else {
        let before = column_width(rows.drop_last(), j);
        let row = rows.last();
        if 0 <= j < row.len() {
            max_nat(before, display_width(row[j]))
        } else {
            before
        }
    }
}

/// The widths of the columns of a table. There are as many columns as the
/// first row has cells.
pub open spec fn column_widths(rows: Seq<Seq<Seq<char>>>) -> Seq<nat> {
    if rows.len() == 0 {
        Seq::empty()
    } else {
        Seq::new(rows[0].len(), |j: int| column_width(rows, j))
    }
}

/// The cell of `row` in column `j`; empty where the row is too short.
pub open spec fn cell_at(row: Seq<Seq<char>>, j: int) -> Seq<char> {
    if 0 <= j < row.len() {
        row[j]
    } else {
        Seq::empty()
    }
}

/// `cell` with spaces behind it up to the width `target`.
pub open spec fn padded_cell(cell: Seq<char>, target: nat) -> Seq<char> {
    if target >= display_width(cell) {
        cell + repeated(' ', (target - display_width(cell)) as nat)
    } else {
        cell
    }
}

/// The first `n` cells of a row, each padded to its column, with ` | `
/// between them. Cells beyond the columns are left out.
pub open spec fn row_cells(row: Seq<Seq<char>>, widths: Seq<nat>, n: nat) -> Seq<char>
    decreases n,
{
    if n == 0 || n > widths.len() {
        Seq::empty()
    } else if n == 1 {
        padded_cell(cell_at(row, 0), widths[0])
    } else {
        row_cells(row, widths, (n - 1) as nat) + " | "@ + padded_cell(
            cell_at(row, n - 1),
            widths[n - 1],
        )
    }
}

/// One line of the table for `row`.
pub open spec fn row_line(row: Seq<Seq<char>>, widths: Seq<nat>) -> Seq<char> {
    "| "@ + row_cells(row, widths, widths.len()) + " |"@
}

/// The dashes under column `j`: as many as the column is wide, three at least.
pub open spec fn dashes(width: nat) -> Seq<char> {
    repeated('-', max_nat(width, 3))
}

/// The dashes of the first `n` columns, with ` | ` between them.
pub open spec fn separator_cells(widths: Seq<nat>, n: nat) -> Seq<char>
    decreases n,
{
    if n == 0 || n > widths.len() {
        Seq::empty()
    } else if n == 1 {
        dashes(widths[0])
    } else {
        separator_cells(widths, (n - 1) as nat) + " | "@ + dashes(widths[n - 1])
    }
}

/// The line between the header row and the rows below it.
pub open spec fn separator_line(widths: Seq<nat>) -> Seq<char> {
    "| "@ + separator_cells(widths, widths.len()) + " |"@
}

/// The lines of the rows `1..n`, each behind `pad` and ended by a line break.
pub open spec fn body_lines(rows: Seq<Seq<Seq<char>>>, pad: Seq<char>, n: nat) -> Seq<char>
    decreases n,
{
    if n <= 1 || n > rows.len() {
        Seq::empty()
    } else {
        body_lines(rows, pad, (n - 1) as nat) + pad + row_line(rows[n - 1], column_widths(rows))
            + "\n"@
    }
}

/// The text of a table with the given rows. Without rows there is no text.
/// Else the first row is the header, the separator follows, then the other
/// rows; every line stands behind `pad` and ends with a line break.
pub open spec fn table_markdown(rows: Seq<Seq<Seq<char>>>, pad: Seq<char>) -> Seq<char> {
    if rows.len() == 0 {
        Seq::empty()
    } else {
        pad + row_line(rows[0], column_widths(rows)) + "\n"@ + pad + separator_line(
            column_widths(rows),
        ) + "\n"@ + body_lines(rows, pad, rows.len())
    }
}

/// What a vector of strings holds.
pub open spec fn strings_view(v: Seq<String>) -> Seq<Seq<char>> {
    Seq::new(v.len(), |j: int| v[j]@)
}

/// What a vector of rows of strings holds.
pub open spec fn grid_view(rows: Seq<Vec<String>>) -> Seq<Seq<Seq<char>>> {
    Seq::new(rows.len(), |i: int| strings_view(rows[i]@))
}

/// The widths as numbers without bound.
pub open spec fn widths_view(widths: Seq<usize>) -> Seq<nat> {
    Seq::new(widths.len(), |j: int| widths[j] as nat)
}

fn render_cells(cells: &Vec<Vec<RichText>>) -> (r: Vec<String>)
    ensures
        strings_view(r@) == row_texts(cells@),
{
    let mut r: Vec<String> = Vec::new();
    let mut j: usize = 0;
    while j < cells.len()
        invariant
            j <= cells.len(),
            r@.len() == j,
            forall|k: int| 0 <= k < j ==> (#[trigger] r@[k])@ == spans_markdown(cells@[k]@),
        decreases cells.len() - j,
    {
        r.push(cells[j].to_markdown());
        j = j + 1;
    }
    assert(strings_view(r@) =~= row_texts(cells@));
    r
}

fn collect_rows(children: &Vec<Block>) -> (rows: Vec<Vec<String>>)
    ensures
        grid_view(rows@) == table_rows(children@),
{
    let mut rows: Vec<Vec<String>> = Vec::new();
    let mut i: usize = 0;
    assert(grid_view(rows@) =~= table_rows(children@.take(0)));
    while i < children.len()
        invariant
            i <= children.len(),
            grid_view(rows@) == table_rows(children@.take(i as int)),
        decreases children.len() - i,
    {
        assert(children@.take(i + 1).drop_last() == children@.take(i as int));
        assert(children@.take(i + 1).last() == children@[i as int]);
        match &children[i] {
            Block::TableRow(row) => {
                let ghost before = rows@;
                let cells = render_cells(&row.table_row.cells);
                rows.push(cells);
                assert(grid_view(rows@) =~= grid_view(before).push(strings_view(cells@)));
            },
            _ => {},
        }
        i = i + 1;
    }
    assert(children@.take(children.len() as int) == children@);
    rows
}

fn measure_columns(rows: &Vec<Vec<String>>) -> (widths: Vec<usize>)
    requires
        rows.len() > 0,
    ensures
        widths_view(widths@) == column_widths(grid_view(rows@)),
{
    let ghost grid = grid_view(rows@);
    let count: usize = rows[0].len();
    let mut widths: Vec<usize> = Vec::new();
    let mut j: usize = 0;
    while j < count
        invariant
            j <= count,
            count == rows@[0]@.len(),
            grid == grid_view(rows@),
            widths@.len() == j,
            forall|k: int| 0 <= k < j ==> (#[trigger] widths@[k]) as nat == column_width(grid, k),
        decreases count - j,
    {
        let mut widest: usize = 0;
        let mut i: usize = 0;
        while i < rows.len()
            invariant
                i <= rows.len(),
                grid == grid_view(rows@),
                widest as nat == column_width(grid.take(i as int), j as int),
            decreases rows.len() - i,
        {
            assert(grid.take(i + 1).drop_last() == grid.take(i as int));
            assert(grid.take(i + 1).last() == strings_view(rows@[i as int]@));
            if j < rows[i].len() {
                let w = width_of(rows[i][j].as_str());
                if w > widest {
                    widest = w;
                }
            }
            i = i + 1;
        }
        assert(grid.take(rows.len() as int) == grid);
        widths.push(widest);
        j = j + 1;
    }
    assert(widths_view(widths@) =~= column_widths(grid));
    widths
}

fn pad_cell(cell: &str, target: usize) -> (r: String)
    ensures
        r@ == padded_cell(cell@, target as nat),
{
    let w = width_of(cell);
    let mut r = String::from_str(cell);
    if target >= w {
        r.append(repeat_char(' ', target - w).as_str());
    }
    r
}

fn format_row(row: &Vec<String>, widths: &Vec<usize>) -> (r: String)
    ensures
        r@ == row_line(strings_view(row@), widths_view(widths@)),
{
    let ghost cells = strings_view(row@);
    let ghost ws = widths_view(widths@);
    let mut r = String::from_str("| ");
    let mut j: usize = 0;
    while j < widths.len()
        invariant
            j <= widths.len(),
            cells == strings_view(row@),
            ws == widths_view(widths@),
            r@ == "| "@ + row_cells(cells, ws, j as nat),
        decreases widths.len() - j,
    {
        if j > 0 {
            r.append(" | ");
        }
        let cell = if j < row.len() {
            pad_cell(row[j].as_str(), widths[j])
        } else {
            pad_cell("", widths[j])
        };
        proof {
            reveal_strlit("");
            assert(""@ =~= Seq::<char>::empty());
        }
        r.append(cell.as_str());
        assert(r@ =~= "| "@ + row_cells(cells, ws, (j + 1) as nat));
        j = j + 1;
    }
    r.append(" |");
    r
}

fn format_separator(widths: &Vec<usize>) -> (r: String)
    ensures
        r@ == separator_line(widths_view(widths@)),
{
    let ghost ws = widths_view(widths@);
    let mut r = String::from_str("| ");
    let mut j: usize = 0;
    while j < widths.len()
        invariant
            j <= widths.len(),
            ws == widths_view(widths@),
            r@ == "| "@ + separator_cells(ws, j as nat),
        decreases widths.len() - j,
    {
        if j > 0 {
            r.append(" | ");
        }
        let w: usize = if widths[j] >= 3 {
            widths[j]
        } else {
            3
        };
        r.append(repeat_char('-', w).as_str());
        assert(r@ =~= "| "@ + separator_cells(ws, (j + 1) as nat));
        j = j + 1;
    }
    r.append(" |");
    r
}

impl Table {
    /// Adds `child` behind the children that are there.
    pub fn append(&mut self, child: Block)
        ensures
            final(self).children@ == old(self).children@.push(child),
            final(self).table == old(self).table,
            final(self).meta == old(self).meta,
    {
        self.children.push(child);
    }

    /// The same block at another place among its siblings and in the tree.
    pub fn with_meta(self, meta: BlockMeta) -> (r: Table)
        ensures
            r == (Table { meta, ..self }),
    {
        Table { meta, table: self.table, children: self.children }
    }

    /// The rendered rows of the table.
    pub open spec fn rows(self) -> Seq<Seq<Seq<char>>> {
        table_rows(self.children@)
    }

    /// The text of the table where every line stands behind `pad`.
    pub open spec fn markdown_in(self, pad: Seq<char>) -> Seq<char> {
        table_markdown(self.rows(), pad)
    }

    /// Renders the table with `pad` in front of every line.
    pub fn to_markdown_in(&self, pad: &str) -> (r: String)
        ensures
            r@ == self.markdown_in(pad@),
    {
        let rows = collect_rows(&self.children);
        let mut r = String::new();
        if rows.len() == 0 {
            return r;
        }
        let ghost grid = grid_view(rows@);
        let widths = measure_columns(&rows);
        r.append(pad);
        r.append(format_row(&rows[0], &widths).as_str());
        r.append("\n");
        r.append(pad);
        r.append(format_separator(&widths).as_str());
        r.append("\n");
        let ghost head = r@;
        let mut i: usize = 1;
        while i < rows.len()
            invariant
                1 <= i <= rows.len(),
                grid == grid_view(rows@),
                widths_view(widths@) == column_widths(grid),
                r@ == head + body_lines(grid, pad@, i as nat),
            decreases rows.len() - i,
        {
            r.append(pad);
            r.append(format_row(&rows[i], &widths).as_str());
            r.append("\n");
            assert(r@ =~= head + body_lines(grid, pad@, (i + 1) as nat));
            i = i + 1;
        }
        assert(r@ =~= table_markdown(grid, pad@));
        r
    }
}

/// No cell of a column is wider than the column.
pub proof fn lemma_column_holds_its_cells(rows: Seq<Seq<Seq<char>>>, i: int, j: int)
    requires
        0 <= i < rows.len(),
        0 <= j < rows[i].len(),
    ensures
        display_width(rows[i][j]) <= column_width(rows, j),
    decreases rows.len(),
{
    if i < rows.len() - 1 {
        lemma_column_holds_its_cells(rows.drop_last(), i, j);
    }
}

/// Every cell of a table, padded, is exactly as wide as its column: the
/// width of the widest cell in it. A row that is short of a cell gets an
/// empty one, padded alike.
pub proof fn lemma_cells_fill_their_column(rows: Seq<Seq<Seq<char>>>, i: int, j: int)
    requires
        0 <= i < rows.len(),
        0 <= j < column_widths(rows).len(),
    ensures
        display_width(padded_cell(cell_at(rows[i], j), column_widths(rows)[j])) == column_width(
            rows,
            j,
        ),
{
    let cell = cell_at(rows[i], j);
    let target = column_width(rows, j);
    if j < rows[i].len() {
        lemma_column_holds_its_cells(rows, i, j);
    }
    lemma_width_of_concat(cell, repeated(' ', (target - display_width(cell)) as nat));
    lemma_width_of_repeated_ascii(' ', (target - display_width(cell)) as nat);
}

/// Under every column stand as many dashes as the column is wide, and
/// three at least, however narrow the column is.
pub proof fn lemma_separator_dashes(width: nat)
    ensures
        dashes(width).len() >= 3,
        dashes(width).len() >= width,
        dashes(width).len() == 3 || dashes(width).len() == width,
        forall|k: int| 0 <= k < dashes(width).len() ==> dashes(width)[k] == '-',
{
}

} // verus!
