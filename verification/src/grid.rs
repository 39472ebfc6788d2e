//! The settled grid: a fixed-size boolean field addressed by `(column, row)`
//! with row 0 at the bottom, together with the full-row clearing pass.

use vstd::prelude::*;

verus! {

/// Width of the board, in cells.
pub const CELLS_WIDE: usize = 8;

/// Height of the board, in cells.
pub const CELLS_HIGH: usize = 20;

/// One cell of the settled grid: `true` when occupied.
pub type Cell = bool;

/// The settled grid, addressed `cells[x][y]` with row 0 at the bottom.
pub type Cells = [[Cell; CELLS_HIGH]; CELLS_WIDE];

/// Whether `(x, y)` is a position on the grid.
pub open spec fn in_grid(x: int, y: int) -> bool {
    &&& 0 <= x < CELLS_WIDE
    &&& 0 <= y < CELLS_HIGH
}

/// The settled cell at `(x, y)`.
pub open spec fn cell_at(cells: Cells, x: int, y: int) -> bool {
    cells@[x]@[y]
}

/// Whether every column of row `y` is occupied.
pub open spec fn row_full(cells: Cells, y: int) -> bool {
    forall|x: int| 0 <= x < CELLS_WIDE ==> cell_at(cells, x, y)
}

/// A grid with every cell empty.
pub fn empty_cells() -> (r: Cells)
    ensures
        forall|x: int, y: int| in_grid(x, y) ==> !(#[trigger] cell_at(r, x, y)),
{
    let r: Cells = [[false; CELLS_HIGH]; CELLS_WIDE];
    assert forall|x: int, y: int| in_grid(x, y) implies !(#[trigger] cell_at(r, x, y)) by {
        assert(r@[x] == [false; CELLS_HIGH]);
    }
    r
}

/// Sets the single cell `(x, y)` and leaves every other cell as it was.
pub fn set_cell(cells: &mut Cells, x: usize, y: usize, v: bool)
    requires
        x < CELLS_WIDE,
        y < CELLS_HIGH,
    ensures
        cell_at(*final(cells), x as int, y as int) == v,
        forall|i: int, j: int|
            in_grid(i, j) && !(i == x && j == y) ==> #[trigger] cell_at(*final(cells), i, j)
                == cell_at(*old(cells), i, j),
{
    let mut column: [Cell; CELLS_HIGH] = cells[x];
    column[y] = v;
    cells[x] = column;
    assert forall|i: int, j: int|
        in_grid(i, j) && !(i == x && j == y) implies #[trigger] cell_at(*cells, i, j) == cell_at(
        *old(cells),
        i,
        j,
    ) by {
        if i != x {
            assert(cells@[i] == old(cells)@[i]);
        }
    }
}

/// Whether every column of row `y` is occupied, computed cell by cell.
pub fn is_row_full(cells: &Cells, y: usize) -> (r: bool)
    requires
        y < CELLS_HIGH,
    ensures
        r == row_full(*cells, y as int),
{
    let mut x: usize = 0;
    while x < CELLS_WIDE
        invariant
            x <= CELLS_WIDE,
            y < CELLS_HIGH,
            forall|i: int| 0 <= i < x ==> cell_at(*cells, i, y as int),
        decreases CELLS_WIDE - x,
    {
        if !cells[x][y] {
            assert(!cell_at(*cells, x as int, y as int));
            return false;
        }
        assert(cell_at(*cells, x as int, y as int));
        x = x + 1;
    }
    true
}

/// The rows of `cells` below `upto` that are not full, bottom to top.
pub open spec fn rows_kept(cells: Cells, upto: int) -> Seq<int>
    decreases upto,
{
    if upto <= 0 {
        Seq::empty()
    } else if row_full(cells, upto - 1) {
        rows_kept(cells, upto - 1)
    } else {
        rows_kept(cells, upto - 1).push(upto - 1)
    }
}

/// How many rows of `cells` below `y` are full.
pub open spec fn full_rows_below(cells: Cells, y: int) -> int
    decreases y,
{
    if y <= 0 {
        0
    } else if row_full(cells, y - 1) {
        full_rows_below(cells, y - 1) + 1
    } else {
        full_rows_below(cells, y - 1)
    }
}

/// Every row below `upto` is either kept or counted as full: the kept rows
/// and the full rows below `upto` partition them.
pub proof fn lemma_rows_kept_len(cells: Cells, upto: int)
    requires
        0 <= upto,
    ensures
        rows_kept(cells, upto).len() + full_rows_below(cells, upto) == upto,
        0 <= full_rows_below(cells, upto),
    decreases upto,
{
    if upto > 0 {
        lemma_rows_kept_len(cells, upto - 1);
    }
}

/// The kept rows are exactly the non-full rows below `upto`, listed in
/// increasing order.
pub proof fn lemma_rows_kept_bounds(cells: Cells, upto: int)
    requires
        0 <= upto,
    ensures
        rows_kept(cells, upto).len() <= upto,
        forall|i: int|
            0 <= i < rows_kept(cells, upto).len() ==> i <= #[trigger] rows_kept(cells, upto)[i]
                < upto && !row_full(cells, rows_kept(cells, upto)[i]),
        forall|i: int, j: int|
            0 <= i < j < rows_kept(cells, upto).len() ==> rows_kept(cells, upto)[i] < rows_kept(
                cells,
                upto,
            )[j],
    decreases upto,
{
    if upto > 0 {
        lemma_rows_kept_bounds(cells, upto - 1);
    }
}

/// A non-full row `y` stands in the kept sequence at index `y` minus the
/// number of full rows below it.
pub proof fn lemma_rows_kept_shift(cells: Cells, upto: int, y: int)
    requires
        0 <= y < upto,
        !row_full(cells, y),
    ensures
        0 <= y - full_rows_below(cells, y) < rows_kept(cells, upto).len(),
        rows_kept(cells, upto)[y - full_rows_below(cells, y)] == y,
    decreases upto,
{
    lemma_rows_kept_len(cells, y);
    if y == upto - 1 {
        lemma_rows_kept_len(cells, upto - 1);
        lemma_rows_kept_bounds(cells, upto - 1);
    } else {
        lemma_rows_kept_shift(cells, upto - 1, y);
    }
}

/// `after` is `before` with its full rows removed: the surviving rows stand
/// bottom-to-top in their old order, and the freed rows at the top are empty.
pub open spec fn is_clear_of(before: Cells, after: Cells) -> bool {
    &&& forall|i: int, x: int|
        0 <= i < rows_kept(before, CELLS_HIGH as int).len() && 0 <= x < CELLS_WIDE ==> cell_at(
            after,
            x,
            i,
        ) == cell_at(before, x, rows_kept(before, CELLS_HIGH as int)[i])
    &&& forall|i: int, x: int|
        rows_kept(before, CELLS_HIGH as int).len() <= i < CELLS_HIGH && 0 <= x < CELLS_WIDE
            ==> !cell_at(after, x, i)
}

/// Law: after a clearing pass every full row is absent — the surviving
/// positions hold only non-full rows (`lemma_rows_kept_bounds`) and the freed
/// rows at the top are empty — and each surviving row has moved down by
/// exactly one position per full row below it, which also keeps the order of
/// surviving rows.
pub proof fn lemma_clear_shifts_rows(before: Cells, after: Cells, x: int, y: int)
    requires
        is_clear_of(before, after),
        0 <= x < CELLS_WIDE,
        0 <= y < CELLS_HIGH,
        !row_full(before, y),
    ensures
        0 <= y - full_rows_below(before, y) <= y,
        cell_at(after, x, y - full_rows_below(before, y)) == cell_at(before, x, y),
{
    lemma_rows_kept_len(before, y);
    lemma_rows_kept_shift(before, CELLS_HIGH as int, y);
    lemma_rows_kept_bounds(before, CELLS_HIGH as int);
}

/// Removes every full row, shifting the rows above each cleared row down by
/// one and leaving the freed rows at the top empty.
pub fn clear_full_rows(cells: Cells) -> (r: Cells)
    ensures
        is_clear_of(cells, r),
{
    let mut out = empty_cells();
    let mut dst: usize = 0;
    let mut y: usize = 0;
    while y < CELLS_HIGH
        invariant
            y <= CELLS_HIGH,
            dst == rows_kept(cells, y as int).len(),
            dst <= y,
            forall|i: int, x: int|
                0 <= i < dst && 0 <= x < CELLS_WIDE ==> cell_at(out, x, i) == cell_at(
                    cells,
                    x,
                    rows_kept(cells, y as int)[i],
                ),
            forall|i: int, x: int|
                dst <= i < CELLS_HIGH && 0 <= x < CELLS_WIDE ==> !cell_at(out, x, i),
        decreases CELLS_HIGH - y,
    {
        proof {
            lemma_rows_kept_bounds(cells, y as int);
            lemma_rows_kept_bounds(cells, y as int + 1);
        }
        if !is_row_full(&cells, y) {
            let ghost out0: Cells = out;
            let mut x: usize = 0;
            while x < CELLS_WIDE
                invariant
                    x <= CELLS_WIDE,
                    y < CELLS_HIGH,
                    dst < CELLS_HIGH,
                    forall|i: int, j: int|
                        0 <= i < CELLS_WIDE && 0 <= j < CELLS_HIGH && !(j == dst && i < x)
                            ==> cell_at(out, i, j) == cell_at(out0, i, j),
                    forall|i: int| 0 <= i < x ==> cell_at(out, i, dst as int) == cell_at(
                        cells,
                        i,
                        y as int,
                    ),
                decreases CELLS_WIDE - x,
            {
                set_cell(&mut out, x, dst, cells[x][y]);
                assert(cell_at(out, x as int, dst as int) == cell_at(cells, x as int, y as int));
                x = x + 1;
            }
            dst = dst + 1;
        }
        y = y + 1;
    }
    proof {
        lemma_rows_kept_bounds(cells, CELLS_HIGH as int);
    }
    out
}

} // verus!
