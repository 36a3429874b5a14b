//! Dimensions of every page of the document: A4 with equal margins.
use vstd::prelude::*;

use crate::layout::UNITS_PER_MM;

verus! {

/// Page width: 210 mm.
pub const WIDTH: i64 = 210 * UNITS_PER_MM;

/// Page height: 297 mm.
pub const HEIGHT: i64 = 297 * UNITS_PER_MM;

/// Equal margins on all sides of the page: 20 mm.
pub const MARGINS: i64 = 20 * UNITS_PER_MM;

/// Width left between the left and right margins.
pub const WORKABLE_WIDTH: i64 = WIDTH - MARGINS * 2;

/// Height left between the bottom and top margins.
pub const WORKABLE_HEIGHT: i64 = HEIGHT - MARGINS * 2;

} // verus!
