//! Grid layout: how many icons fit in a row, and how a sequence of icons is
//! cut into rows of equal width.

use vstd::prelude::*;
use vstd::arithmetic::div_mod::{lemma_div_is_ordered, lemma_fundamental_div_mod, lemma_mod_bound};

verus! {

/// Number of icons in a row of a window of the given width, with the detail
/// panel closed.
pub open spec fn full_width_columns(width: u32) -> int {
    if width >= 1300 {
        8
    } else if width >= 1200 {
        7
    } else if width >= 1100 {
        6
    } else if width >= 1000 {
        5
    } else if width >= 900 {
        4
    } else {
        3
    }
}

/// Number of icons in a row: the detail panel takes half of the columns, but
/// never leaves fewer than two.
pub open spec fn items_per_row(width: u32, detail_panel_open: bool) -> int {
    let columns = full_width_columns(width);
    if !detail_panel_open {
        columns
    } else if columns / 2 > 1 {
        columns / 2
    } else {
        2
    }
}

/// Number of rows that `count` items take with `per_row` slots in each. An
/// empty sequence still takes one row, which holds placeholders only.
pub open spec fn row_count(count: int, per_row: int) -> int {
    if count <= 0 {
        1
    } else {
        (count - 1) / per_row + 1
    }
}

/// What stands in column `col` of row `row`: the item at that position in
/// reading order, or a placeholder behind the last item.
pub open spec fn slot<T>(items: Seq<T>, per_row: int, row: int, col: int) -> Option<T> {
    let index = row * per_row + col;
    if 0 <= index < items.len() {
        Some(items[index])
    } else {
        None
    }
}

/// Row `row` of the grid.
pub open spec fn grid_row<T>(items: Seq<T>, per_row: int, row: int) -> Seq<Option<T>> {
    Seq::new(per_row as nat, |col: int| slot(items, per_row, row, col))
}

/// Whether `rows` is the grid of `items` with `per_row` slots in a row.
pub open spec fn is_grid<T>(items: Seq<T>, per_row: int, rows: Seq<Vec<Option<T>>>) -> bool {
    &&& rows.len() == row_count(items.len() as int, per_row)
    &&& forall|row: int| 0 <= row < rows.len() ==> (#[trigger] rows[row])@ == grid_row(items, per_row, row)
}

/// The number of icons shown in one row of the grid.
pub fn get_items_per_row(width: u32, detail_panel_open: bool) -> (per_row: usize)
    ensures
        per_row == items_per_row(width, detail_panel_open),
        2 <= per_row <= 8,
{
    let columns: usize = if width >= 1300 {
        8
    } else if width >= 1200 {
        7
    } else if width >= 1100 {
        6
    } else if width >= 1000 {
        5
    } else if width >= 900 {
        4
    } else {
        3
    };
    if detail_panel_open {
        let halved: usize = columns / 2;
        if halved > 1 {
            halved
        } else {
            2
        }
    } else {
        columns
    }
}

/// Cuts `items` into consecutive rows of `items_per_row` slots. The last row
/// is filled up with placeholders (`None`); no items give one row of
/// placeholders.
pub fn arrange_rows<T: Copy>(items: &[T], items_per_row: usize) -> (rows: Vec<Vec<Option<T>>>)
    requires
        items_per_row >= 1,
    ensures
        is_grid(items@, items_per_row as int, rows@),
{
    let count: usize = items.len();
    let mut rows: Vec<Vec<Option<T>>> = Vec::new();
    let mut start: usize = 0;
    assert(rows.len() * items_per_row == 0) by (nonlinear_arith)
        requires
            rows.len() == 0,
    ;
    loop
        invariant_except_break
            start == rows.len() * items_per_row,
            start < count || (count == 0 && rows.len() == 0),
        invariant
            count == items@.len(),
            items_per_row >= 1,
            forall|row: int| 0 <= row < rows.len() ==> (#[trigger] rows[row])@ == grid_row(items@, items_per_row as int, row),
        ensures
            rows.len() == row_count(count as int, items_per_row as int),
        decreases count - start,
    {
        let ghost row_index = rows.len() as int;
        let left: usize = count - start;
        let mut row: Vec<Option<T>> = Vec::new();
        let mut col: usize = 0;
        while col < items_per_row
            invariant
                col <= items_per_row,
                count == items@.len(),
                left == count - start,
                start == row_index * items_per_row,
                row@ == grid_row(items@, items_per_row as int, row_index).take(col as int),
            decreases items_per_row - col,
        {
            let cell: Option<T> = if col < left {
                Some(items[start + col])
            } else {
                None
            };
            row.push(cell);
            col += 1;
        }
        assert(row@ == grid_row(items@, items_per_row as int, row_index));
        rows.push(row);
        if left <= items_per_row {
            proof {
                lemma_last_row(count as int, items_per_row as int, row_index);
            }
            break;
        }
        assert((row_index + 1) * items_per_row == start + items_per_row) by (nonlinear_arith)
            requires
                start == row_index * items_per_row,
        ;
        start += items_per_row;
    }
    rows
}

/// The row that holds the last item is the last row.
proof fn lemma_last_row(count: int, per_row: int, row: int)
    requires
        per_row >= 1,
        row >= 0,
        count >= 0,
        count == 0 ==> row == 0,
        count > 0 ==> row * per_row < count <= row * per_row + per_row,
    ensures
        row + 1 == row_count(count, per_row),
{
    if count > 0 {
        assert((count - 1) / per_row == row) by (nonlinear_arith)
            requires
                per_row >= 1,
                row * per_row <= count - 1 < row * per_row + per_row,
        ;
    }
}

/// Whether item `i` stands in `rows` at the row and column that its position
/// gives with `per_row` slots in a row.
pub open spec fn stands_in_grid<T>(
    items: Seq<T>,
    per_row: int,
    rows: Seq<Vec<Option<T>>>,
    i: int,
) -> bool {
    &&& 0 <= i / per_row < rows.len()
    &&& 0 <= i % per_row < rows[i / per_row]@.len()
    &&& rows[i / per_row]@[i % per_row] == Some(items[i])
}

/// Every row of a grid has exactly `per_row` slots. A slot holds an item
/// where its place in reading order is before the end of the items, and a
/// placeholder from there on; and each item stands in the grid, at the row
/// and column that its position gives.
pub proof fn lemma_grid_rows_are_uniform<T>(
    items: Seq<T>,
    per_row: int,
    rows: Seq<Vec<Option<T>>>,
)
    requires
        per_row >= 1,
        is_grid(items, per_row, rows),
    ensures
        rows.len() >= 1,
        forall|row: int| 0 <= row < rows.len() ==> (#[trigger] rows[row])@.len() == per_row,
        forall|row: int, col: int|
            0 <= row < rows.len() && 0 <= col < per_row ==> (#[trigger] rows[row]@[col]) == slot(
                items,
                per_row,
                row,
                col,
            ),
        forall|i: int| 0 <= i < items.len() ==> stands_in_grid(items, per_row, rows, i),
{
    assert forall|row: int| 0 <= row < rows.len() implies (#[trigger] rows[row])@.len()
        == per_row by {
        assert(rows[row]@ == grid_row(items, per_row, row));
    }
    assert forall|row: int, col: int| 0 <= row < rows.len() && 0 <= col < per_row implies (
    #[trigger] rows[row]@[col]) == slot(items, per_row, row, col) by {
        assert(rows[row]@ == grid_row(items, per_row, row));
    }
    assert forall|i: int| 0 <= i < items.len() implies stands_in_grid(items, per_row, rows, i) by {
        lemma_fundamental_div_mod(i, per_row);
        lemma_mod_bound(i, per_row);
        lemma_div_is_ordered(0, i, per_row);
        lemma_div_is_ordered(i, items.len() - 1, per_row);
        let row = i / per_row;
        let col = i % per_row;
        assert(row * per_row == per_row * row) by (nonlinear_arith);
        assert(rows[row]@ == grid_row(items, per_row, row));
        assert(rows[row]@[col] == slot(items, per_row, row, col));
    }
}

} // verus!
