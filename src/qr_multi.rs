//! Page with a grid of QR codes, one per entry.
//!
//! The grid fills the workable area of the page, with no gap between
//! cells: each QR image carries its own quiet zone. Each cell is
//! `BOX_WIDTH` by `BOX_HEIGHT`; its top `TEXT_BOX_HEIGHT` holds the
//! entry's label and the rest, `QR_BOX_HEIGHT`, its QR code.
use vstd::prelude::*;

use crate::layout::{center_in, half_floor, center_spec, point_at, point_ok, MmPoint, MmRect, UNITS_PER_MM, UNITS_PER_PT};
use crate::page;

verus! {

/// Columns of the grid.
pub const GRID_WIDTH: u32 = 3;

/// Rows of the grid.
pub const GRID_HEIGHT: u32 = 4;

/// Font size of the labels: 10 pt.
pub const FONT_SIZE: i64 = 10 * UNITS_PER_PT;

/// Height of the label band at the top of each cell: 5 mm.
pub const TEXT_BOX_HEIGHT: i64 = 5 * UNITS_PER_MM;

/// Width of a cell: a third of the workable width (56 2/3 mm).
pub const BOX_WIDTH: i64 = 510_000;

/// Height of a cell: a quarter of the workable height (64.25 mm).
pub const BOX_HEIGHT: i64 = 578_250;

/// Height of the QR band of a cell.
pub const QR_BOX_HEIGHT: i64 = BOX_HEIGHT - TEXT_BOX_HEIGHT;

/// Side of the square that each QR code is fitted to: the smaller of
/// `QR_BOX_HEIGHT` and `BOX_WIDTH`, here the width.
pub const QR_SIZE: i64 = BOX_WIDTH;

/// The cells divide the workable area evenly, and `QR_SIZE` is the
/// smaller side of the QR band.
pub proof fn grid_dimensions()
    ensures
        BOX_WIDTH * GRID_WIDTH == page::WORKABLE_WIDTH,
        BOX_HEIGHT * GRID_HEIGHT == page::WORKABLE_HEIGHT,
        QR_SIZE == if QR_BOX_HEIGHT < BOX_WIDTH { QR_BOX_HEIGHT } else { BOX_WIDTH },
{
}

/// Offset from the top of the label band to the text origin: the text
/// height, since shaped text is anchored at its top, plus the space that
/// centres it in the band.
pub open spec fn text_offset() -> int {
    FONT_SIZE + (TEXT_BOX_HEIGHT - FONT_SIZE) / 2
}

/// Anchor of the label of cell (`column`, `row`): the left edge of the
/// cell, and the height that centres the text in its label band.
pub open spec fn text_anchor(column: int, row: int) -> (int, int) {
    (
        page::MARGINS + BOX_WIDTH * column,
        page::MARGINS + BOX_HEIGHT * row + QR_BOX_HEIGHT + text_offset(),
    )
}

/// The QR band of cell (`column`, `row`).
pub open spec fn qr_band(column: int, row: int) -> MmRect {
    MmRect {
        vertex: MmPoint {
            x: (page::MARGINS + BOX_WIDTH * column) as i64,
            y: (page::MARGINS + BOX_HEIGHT * row) as i64,
        },
        size: MmPoint { x: BOX_WIDTH, y: QR_BOX_HEIGHT },
    }
}

/// Position of the label text of cell (`column`, `row`), counted from 0
/// at the bottom-left cell. The text is centred horizontally by the text
/// shaper, over the cell's width; the point returned is its top-left
/// corner.
pub fn layout_text(column: u32, row: u32) -> (r: MmPoint)
    requires
        column < GRID_WIDTH,
        row < GRID_HEIGHT,
    ensures
        point_at(r) == text_anchor(column as int, row as int),
{
    let x = page::MARGINS + BOX_WIDTH * column as i64;
    let text_vertical_align_offset = FONT_SIZE + half_floor(TEXT_BOX_HEIGHT - FONT_SIZE);
    let y = page::MARGINS + BOX_HEIGHT * row as i64 + QR_BOX_HEIGHT + text_vertical_align_offset;
    MmPoint { x, y }
}

/// Bottom-left corner of a QR image of `qr_actual_size` centred in the
/// QR band of cell (`column`, `row`), counted from 0 at the bottom-left
/// cell.
pub fn layout_qr(column: u32, row: u32, qr_actual_size: MmPoint) -> (r: MmPoint)
    requires
        column < GRID_WIDTH,
        row < GRID_HEIGHT,
        point_ok(qr_actual_size),
    ensures
        point_at(r) == center_spec(qr_band(column as int, row as int), qr_actual_size),
{
    let dest_rect_vertex = MmPoint {
        x: page::MARGINS + BOX_WIDTH * column as i64,
        y: page::MARGINS + BOX_HEIGHT * row as i64,
    };
    let dest_rect_size = MmPoint { x: BOX_WIDTH, y: QR_BOX_HEIGHT };
    center_in(MmRect { vertex: dest_rect_vertex, size: dest_rect_size }, qr_actual_size)
}

} // verus!
