//! Page with one large QR code in the middle, encoding a whole chunk of
//! entries as one text.
use vstd::prelude::*;

use crate::layout::{center_in, center_spec, point_at, point_ok, MmPoint, MmRect};
use crate::page;

verus! {

/// Side of the square that the large QR code is fitted to: the smaller
/// workable dimension, here the width.
pub const QR_SIZE: i64 = page::WORKABLE_WIDTH;

/// The margin-inset area of the page.
pub open spec fn workable_rect() -> MmRect {
    MmRect {
        vertex: MmPoint { x: page::MARGINS, y: page::MARGINS },
        size: MmPoint { x: page::WORKABLE_WIDTH, y: page::WORKABLE_HEIGHT },
    }
}

/// Bottom-left corner of a QR image of `qr_actual_size` centred in the
/// workable area of the page.
pub fn layout_qr(qr_actual_size: MmPoint) -> (r: MmPoint)
    requires
        point_ok(qr_actual_size),
    ensures
        point_at(r) == center_spec(workable_rect(), qr_actual_size),
{
    let dest_rect_vertex = MmPoint { x: page::MARGINS, y: page::MARGINS };
    let dest_rect_size = MmPoint { x: page::WORKABLE_WIDTH, y: page::WORKABLE_HEIGHT };
    center_in(MmRect { vertex: dest_rect_vertex, size: dest_rect_size }, qr_actual_size)
}

} // verus!
