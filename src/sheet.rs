//! Flattening a worksheet's rows into one row-major sequence of cell texts.
use vstd::prelude::*;

use crate::cell::{Cell, cell_text, cell_to_text};

verus! {

/// One worksheet after flattening: its name and the texts of all its cells,
/// row after row, each row in column order.
pub struct FlatSheet {
    pub name: String,
    pub cells: Vec<String>,
}

/// The character sequences held by a sequence of strings.
pub open spec fn texts(v: Seq<String>) -> Seq<Seq<char>> {
    v.map_values(|s: String| s@)
}

/// The cells of a grid of rows, as sequences.
pub open spec fn grid(rows: Seq<Vec<Cell>>) -> Seq<Seq<Cell>> {
    rows.map_values(|r: Vec<Cell>| r@)
}

/// The texts of one row's cells, in column order.
pub open spec fn row_texts(row: Seq<Cell>) -> Seq<Seq<char>> {
    row.map_values(|c: Cell| cell_text(c))
}

/// The texts of all cells, row after row.
pub open spec fn flatten_rows(rows: Seq<Seq<Cell>>) -> Seq<Seq<char>>
    decreases rows.len(),
{
    if rows.len() == 0 {
        Seq::empty()
    } else {
        flatten_rows(rows.drop_last()) + row_texts(rows.last())
    }
}

/// The number of cells over all rows.
pub open spec fn total_cells(rows: Seq<Seq<Cell>>) -> nat
    decreases rows.len(),
{
    if rows.len() == 0 {
        0
    } else {
        total_cells(rows.drop_last()) + rows.last().len()
    }
}

/// A flattened sheet holds exactly one text for each cell of each row:
/// empty cells keep their slot.
pub proof fn lemma_flatten_len(rows: Seq<Seq<Cell>>)
    ensures
        flatten_rows(rows).len() == total_cells(rows),
    decreases rows.len(),
{
    if rows.len() > 0 {
        lemma_flatten_len(rows.drop_last());
    }
}

/// Flattening is a function of the name and the rows: flattening the same
/// rows twice gives equal sheets.
pub proof fn lemma_flatten_idempotent(
    name: Seq<char>,
    rows: Seq<Seq<Cell>>,
    first: (Seq<char>, Seq<Seq<char>>),
    second: (Seq<char>, Seq<Seq<char>>),
)
    requires
        first == (name, flatten_rows(rows)),
        second == (name, flatten_rows(rows)),
    ensures
        first == second,
{
}

/// Flattens the rows of the sheet `name` in row-major order; every cell,
/// empty ones included, contributes one text.
pub fn flatten(name: &String, rows: &Vec<Vec<Cell>>) -> (r: FlatSheet)
    ensures
        r.name@ == name@,
        texts(r.cells@) == flatten_rows(grid(rows@)),
        r.cells@.len() == total_cells(grid(rows@)),
{
    let mut cells: Vec<String> = Vec::new();
    let mut i: usize = 0;
    while i < rows.len()
        invariant
            0 <= i <= rows.len(),
            texts(cells@) == flatten_rows(grid(rows@).take(i as int)),
        decreases rows.len() - i,
    {
        let row = &rows[i];
        let ghost before = texts(cells@);
        let mut j: usize = 0;
        while j < row.len()
            invariant
                0 <= j <= row.len(),
                i < rows.len(),
                row == &rows@[i as int],
                before == flatten_rows(grid(rows@).take(i as int)),
                texts(cells@) == before + row_texts(row@.take(j as int)),
            decreases row.len() - j,
        {
            let t = cell_to_text(&row[j]);
            let ghost prev = cells@;
            let ghost tv = t@;
            cells.push(t);
            assert(texts(cells@) =~= texts(prev).push(tv));
            assert(row@.take(j + 1) =~= row@.take(j as int).push(row@[j as int]));
            assert(row_texts(row@.take(j + 1)) =~= row_texts(row@.take(j as int)).push(tv));
            assert(texts(cells@) =~= before + row_texts(row@.take(j + 1)));
            j += 1;
        }
        assert(row@.take(j as int) =~= row@);
        let ghost g = grid(rows@);
        assert(g.take(i + 1).drop_last() =~= g.take(i as int));
        assert(g.take(i + 1).last() == row@);
        i += 1;
    }
    assert(grid(rows@).take(i as int) =~= grid(rows@));
    proof {
        lemma_flatten_len(grid(rows@));
    }
    FlatSheet { name: name.clone(), cells }
}

} // verus!
