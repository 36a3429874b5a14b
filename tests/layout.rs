use passqr::layout::{center_in, MmPoint, MmRect, UNITS_PER_DOT, UNITS_PER_MM, UNITS_PER_PT};
use passqr::{page, qr_multi, qr_single};

fn rect(x: i64, y: i64, w: i64, h: i64) -> MmRect {
    MmRect { vertex: MmPoint { x, y }, size: MmPoint { x: w, y: h } }
}

#[test]
fn units_are_exact() {
    assert_eq!(UNITS_PER_MM, 9000);
    assert_eq!(UNITS_PER_PT * 72, UNITS_PER_MM * 254 / 10);
    assert_eq!(UNITS_PER_DOT * 300, UNITS_PER_MM * 254 / 10);
    assert_eq!(page::WORKABLE_WIDTH, 170 * UNITS_PER_MM);
    assert_eq!(page::WORKABLE_HEIGHT, 257 * UNITS_PER_MM);
    assert_eq!(qr_multi::BOX_WIDTH * 3, page::WORKABLE_WIDTH);
    assert_eq!(qr_multi::BOX_HEIGHT * 4, page::WORKABLE_HEIGHT);
    assert_eq!(qr_multi::QR_BOX_HEIGHT, 533_250);
    assert_eq!(qr_multi::QR_SIZE, 510_000);
    assert_eq!(qr_single::QR_SIZE, 1_530_000);
}

#[test]
fn center_of_equal_size_is_origin() {
    let r = rect(5, 7, 100, 40);
    assert_eq!(center_in(r, MmPoint { x: 100, y: 40 }), MmPoint { x: 5, y: 7 });
}

#[test]
fn center_of_smaller_box() {
    let r = rect(10, 20, 100, 40);
    assert_eq!(center_in(r, MmPoint { x: 60, y: 10 }), MmPoint { x: 30, y: 35 });
}

#[test]
fn center_of_larger_box_is_before_origin() {
    let r = rect(0, 0, 10, 10);
    assert_eq!(center_in(r, MmPoint { x: 13, y: 10 }), MmPoint { x: -2, y: 0 });
    assert_eq!(center_in(r, MmPoint { x: 10, y: 30 }), MmPoint { x: 0, y: -10 });
}

#[test]
fn center_again_keeps_place() {
    let r = rect(3, 4, 50, 80);
    let size = MmPoint { x: 20, y: 30 };
    let p = center_in(r, size);
    assert_eq!(center_in(MmRect { vertex: p, size }, size), p);
}

#[test]
fn image_size_counts_dots() {
    assert_eq!(MmPoint::image_size(600, 300), MmPoint { x: 457_200, y: 228_600 });
    assert_eq!(MmPoint::image_size(0, 0), MmPoint { x: 0, y: 0 });
}

#[test]
fn grid_text_positions() {
    assert_eq!(qr_multi::layout_text(0, 0), MmPoint { x: 180_000, y: 751_625 });
    assert_eq!(qr_multi::layout_text(2, 3), MmPoint { x: 1_200_000, y: 2_486_375 });
}

#[test]
fn grid_qr_positions_use_actual_size() {
    let size = MmPoint::image_size(600, 600);
    assert_eq!(qr_multi::layout_qr(0, 0, size), MmPoint { x: 206_400, y: 218_025 });
    assert_eq!(qr_multi::layout_qr(1, 2, size), MmPoint { x: 716_400, y: 1_374_525 });
    let full = MmPoint { x: qr_multi::BOX_WIDTH, y: qr_multi::QR_BOX_HEIGHT };
    assert_eq!(qr_multi::layout_qr(0, 0, full), MmPoint { x: 180_000, y: 180_000 });
}

#[test]
fn single_qr_position() {
    let size = MmPoint::image_size(2000, 2000);
    assert_eq!(qr_single::layout_qr(size), MmPoint { x: 183_000, y: 574_500 });
}

