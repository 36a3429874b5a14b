//! Page geometry.
//!
//! Lengths are whole numbers of a fixed unit, a ninth of a micrometre
//! (1/9000 mm). In that unit a millimetre (9000), a typographic point
//! (3175) and one dot of a 300 dpi image (762) are all whole, so every
//! placement on the page is computed exactly. The origin of the page is
//! its bottom-left corner.
use vstd::prelude::*;

verus! {

/// Length units in one millimetre.
pub const UNITS_PER_MM: i64 = 9000;

/// Length units in one typographic point (1/72 inch).
pub const UNITS_PER_PT: i64 = 3175;

/// Dots per inch of every image placed on a page.
pub const DPI: i64 = 300;

/// Length units in one image dot (1/300 inch).
pub const UNITS_PER_DOT: i64 = 762;

/// Largest coordinate magnitude accepted by the placement functions, so
/// that no intermediate sum leaves `i64`.
pub const MAX_COORD: i64 = 0x2000_0000_0000_0000;

/// Largest image side, in dots, that `MmPoint::image_size` accepts.
pub const MAX_IMAGE_DOTS: u64 = 0x1_0000_0000;

/// A point, or a size, on the page.
#[derive(Clone, Copy, Debug, PartialEq, Eq, Structural)]
pub struct MmPoint {
    pub x: i64,
    pub y: i64,
}

/// A rectangle given by its bottom-left corner and its size.
#[derive(Clone, Copy, Debug, PartialEq, Eq, Structural)]
pub struct MmRect {
    pub vertex: MmPoint,
    pub size: MmPoint,
}

pub open spec fn coord_ok(v: int) -> bool {
    -MAX_COORD <= v <= MAX_COORD
}

/// Both coordinates are within the accepted range.
pub open spec fn point_ok(p: MmPoint) -> bool {
    coord_ok(p.x as int) && coord_ok(p.y as int)
}

pub open spec fn rect_ok(r: MmRect) -> bool {
    point_ok(r.vertex) && point_ok(r.size)
}

/// Start of a segment of length `content` centred in the segment
/// `[start, start + container)`; half units round down.
pub open spec fn center_coord(start: int, container: int, content: int) -> int {
    start + (container - content) / 2
}

/// Bottom-left corner at which a box of size `content` is centred in `dest`.
pub open spec fn center_spec(dest: MmRect, content: MmPoint) -> (int, int) {
    (
        center_coord(dest.vertex.x as int, dest.size.x as int, content.x as int),
        center_coord(dest.vertex.y as int, dest.size.y as int, content.y as int),
    )
}

pub open spec fn point_at(p: MmPoint) -> (int, int) {
    (p.x as int, p.y as int)
}

/// Half of `d`, rounded down.
pub(crate) fn half_floor(d: i64) -> (r: i64)
    requires
        -2 * MAX_COORD <= d <= 2 * MAX_COORD,
    ensures
        r as int == d as int / 2,
{
    if d >= 0 {
        d / 2
    } else {
        let n: i64 = (1 - d) / 2;
        assert(d as int / 2 == -n) by (nonlinear_arith)
            requires
                d < 0,
                n == (1 - d) / 2,
        ;
        -n
    }
}

/// Bottom-left corner at which a box of size `target_size` has to be
/// placed to be centred inside `destination`. A box larger than the
/// destination on an axis gets a corner before the destination's own.
pub fn center_in(destination: MmRect, target_size: MmPoint) -> (r: MmPoint)
    requires
        rect_ok(destination),
        point_ok(target_size),
    ensures
        point_at(r) == center_spec(destination, target_size),
{
    let hx = half_floor(destination.size.x - target_size.x);
    let hy = half_floor(destination.size.y - target_size.y);
    MmPoint { x: destination.vertex.x + hx, y: destination.vertex.y + hy }
}

/// `content` is smaller than `dest` by at most one unit on each axis, and
/// by one unit on at least one: the half unit is rounded away and the
/// content's corner is the container's own.
pub open spec fn one_unit_short(dest: MmRect, content: MmPoint) -> bool {
    let dx = dest.size.x - content.x;
    let dy = dest.size.y - content.y;
    0 <= dx <= 1 && 0 <= dy <= 1 && dx + dy > 0
}

/// Centring a box in a container returns the container's corner exactly
/// when the box has the container's size. Centring it a second time, in
/// a container of the same size placed at the first corner, leaves the
/// corner where it was on an axis exactly when the box has the
/// container's size on that axis. On an axis where the box is larger
/// than the container, its corner lies before the container's. Half
/// units round down, so a box one unit short of the container counts as
/// filling it; those inputs are left out of the "exactly when".
pub proof fn lemma_center_in(dest: MmRect, content: MmPoint)
    ensures
        !one_unit_short(dest, content) ==> (center_spec(dest, content) == point_at(dest.vertex)
            <==> content == dest.size),
        ({
            let c = center_spec(dest, content);
            let again_x = center_coord(c.0, dest.size.x as int, content.x as int);
            dest.size.x - content.x != 1 ==> (again_x == c.0 <==> content.x == dest.size.x)
        }),
        ({
            let c = center_spec(dest, content);
            let again_y = center_coord(c.1, dest.size.y as int, content.y as int);
            dest.size.y - content.y != 1 ==> (again_y == c.1 <==> content.y == dest.size.y)
        }),
        content.x > dest.size.x ==> center_spec(dest, content).0 < dest.vertex.x,
        content.y > dest.size.y ==> center_spec(dest, content).1 < dest.vertex.y,
{
}

impl MmPoint {
    /// Size on the page of an image of `width` by `height` dots.
    pub fn image_size(width: u64, height: u64) -> (r: MmPoint)
        requires
            width <= MAX_IMAGE_DOTS,
            height <= MAX_IMAGE_DOTS,
        ensures
            r.x == width * UNITS_PER_DOT,
            r.y == height * UNITS_PER_DOT,
            point_ok(r),
    {
        MmPoint { x: width as i64 * UNITS_PER_DOT, y: height as i64 * UNITS_PER_DOT }
    }
}

} // verus!
