//! The square grid that the slots lie on.
//!
//! A grid with `edge` cells along each side has `edge * edge` slots. Slots
//! are numbered column by column: slot `s` lies in column `s / edge`, at row
//! `s % edge`.

use vstd::prelude::*;

verus! {

/// The edge of a grid, unless configured otherwise.
pub const DEFAULT_GRID_EDGE: u32 = 9;

/// The column and the row of a slot.
pub open spec fn cell_of_slot(slot: int, edge: int) -> (int, int) {
    (slot / edge, slot % edge)
}

/// The slot at a column and a row.
pub open spec fn slot_of_cell(column: int, row: int, edge: int) -> int {
    column * edge + row
}

/// The number of slots of a grid with the given edge, or `None` where that
/// number does not fit in 32 bits.
pub fn slot_count(edge: u32) -> (count: Option<u32>)
    ensures
        match count {
            Some(n) => n == edge * edge,
            None => edge * edge > u32::MAX,
        },
{
    edge.checked_mul(edge)
}

/// The column and the row at which `slot` lies.
pub fn cell_of(slot: u32, edge: u32) -> (cell: (u32, u32))
    requires
        edge > 0,
    ensures
        (cell.0 as int, cell.1 as int) == cell_of_slot(slot as int, edge as int),
        cell.1 < edge,
        slot < edge * edge ==> cell.0 < edge,
{
    proof {
        lemma_cell_on_grid(slot as int, edge as int);
    }
    (slot / edge, slot % edge)
}

/// The slot that lies at `column` and `row`, or `None` where the grid has
/// no such cell or its slots do not fit in 32 bits.
pub fn slot_at(column: u32, row: u32, edge: u32) -> (slot: Option<u32>)
    ensures
        match slot {
            Some(s) => {
                &&& column < edge
                &&& row < edge
                &&& s == slot_of_cell(column as int, row as int, edge as int)
                &&& s < edge * edge
            },
            None => column >= edge || row >= edge || edge * edge > u32::MAX,
        },
{
    if column >= edge || row >= edge {
        return None;
    }
    match edge.checked_mul(edge) {
        None => None,
        Some(_) => {
            proof {
                lemma_slot_on_grid(column as int, row as int, edge as int);
            }
            Some(column * edge + row)
        },
    }
}

/// A slot of the grid lies at a cell of the grid, and that cell holds the
/// slot.
pub proof fn lemma_cell_on_grid(slot: int, edge: int)
    requires
        0 <= slot,
        0 < edge,
    ensures
        0 <= cell_of_slot(slot, edge).0,
        0 <= cell_of_slot(slot, edge).1 < edge,
        slot < edge * edge ==> cell_of_slot(slot, edge).0 < edge,
        slot_of_cell(cell_of_slot(slot, edge).0, cell_of_slot(slot, edge).1, edge) == slot,
{
    vstd::arithmetic::div_mod::lemma_fundamental_div_mod(slot, edge);
    vstd::arithmetic::div_mod::lemma_mod_pos_bound(slot, edge);
    vstd::arithmetic::div_mod::lemma_div_pos_is_pos(slot, edge);
    let column = slot / edge;
    assert(column * edge == edge * column) by (nonlinear_arith);
    if slot < edge * edge {
        assert(column < edge) by (nonlinear_arith)
            requires
                0 < edge,
                column * edge <= slot,
                slot < edge * edge,
        ;
    }
}

/// A cell of the grid holds a slot of the grid, and that slot lies at the
/// cell.
pub proof fn lemma_slot_on_grid(column: int, row: int, edge: int)
    requires
        0 <= column < edge,
        0 <= row < edge,
    ensures
        0 <= slot_of_cell(column, row, edge) < edge * edge,
        cell_of_slot(slot_of_cell(column, row, edge), edge) == (column, row),
{
    assert(0 <= column * edge && column * edge + row < edge * edge) by (nonlinear_arith)
        requires
            0 <= column < edge,
            0 <= row < edge,
    ;
    assert(edge * column == column * edge) by (nonlinear_arith);
    vstd::arithmetic::div_mod::lemma_fundamental_div_mod_converse(
        column * edge + row,
        edge,
        column,
        row,
    );
}

} // verus!
