//! QR images of the entries and of the recap text.
use vstd::prelude::*;

use crate::layout::UNITS_PER_DOT;

verus! {

/// `qrcode::types::QrError`, carried as it is.
#[verifier::external_type_specification]
#[verifier::external_body]
pub struct ExQrError(qrcode::types::QrError);

/// Modules across the smallest QR code (version 1), quiet zone included.
pub const MIN_SIDE_MODULES: u32 = 29;

/// Modules across the largest QR code (version 40), quiet zone included.
pub const MAX_SIDE_MODULES: u32 = 185;

/// `content` fits a QR code at error correction level L.
pub uninterp spec fn qr_fits_of(content: Seq<char>) -> bool;

/// The QR code of `content` at level L rendered within `max_dots`: its
/// grey pixels row by row, and the side of the square image.
pub uninterp spec fn qr_image_of(content: Seq<char>, max_dots: int) -> (Seq<u8>, int);

/// Relies on `qrcode::QrCode::with_error_correction_level` at level L,
/// which fails exactly where the text fits no QR code, and on its
/// `Renderer` for one-byte grey pixels with
/// `max_dimensions(max_dots, max_dots)` and `build`. The code is a normal
/// version, 29 to 185 modules across with its quiet zone of 4; each
/// module is `max_dots / modules` pixels, at least 1, on both axes, so
/// the image is square and fits `max_dots` wherever 185 modules do.
#[verifier::external_body]
fn qr_image(content: &str, max_dots: u32) -> (r: Result<(Vec<u8>, u32), qrcode::types::QrError>)
    ensures
        r is Ok <==> qr_fits_of(content@),
        r is Ok ==> qr_image_of(content@, max_dots as int) == (r->Ok_0.0@, r->Ok_0.1 as int),
        r is Ok ==> r->Ok_0.0@.len() == r->Ok_0.1 * r->Ok_0.1,
        r is Ok ==> MIN_SIDE_MODULES <= r->Ok_0.1,
        r is Ok && max_dots >= MAX_SIDE_MODULES ==> r->Ok_0.1 <= max_dots,
{
    let code = qrcode::QrCode::with_error_correction_level(content, qrcode::EcLevel::L)?;
    let image = code.render::<image::Luma<u8>>().max_dimensions(max_dots, max_dots).build();
    let side = image.width();
    Ok((image.into_vec(), side))
}

/// A square grey-scale image, one byte a pixel, row by row.
pub struct QrImage {
    pub pixels: Vec<u8>,
    pub width: u32,
    pub height: u32,
}

/// Why a text has no QR image.
pub enum QrImageError {
    /// The text does not fit a QR code.
    Encode(qrcode::types::QrError),
}

/// Whole image dots in a length of `size` units.
pub open spec fn dots_in(size: int) -> int {
    size / UNITS_PER_DOT as int
}

/// The QR code of `content` at level L as a square image within `size`
/// where the code's modules allow it. The encoder snaps the side to a
/// whole number of pixels per module, so it may fall short of `size`, or
/// pass it where one pixel a module is already too large. Fails exactly
/// where the text fits no QR code.
pub fn generate_qr_code(content: &str, size: i64) -> (r: Result<QrImage, QrImageError>)
    requires
        0 <= size,
        dots_in(size as int) <= u32::MAX,
    ensures
        r is Ok <==> qr_fits_of(content@),
        r is Ok ==> r->Ok_0.width == r->Ok_0.height,
        r is Ok ==> qr_image_of(content@, dots_in(size as int)) == (
            r->Ok_0.pixels@,
            r->Ok_0.width as int,
        ),
        r is Ok ==> r->Ok_0.pixels@.len() == r->Ok_0.width * r->Ok_0.height,
        r is Ok ==> MIN_SIDE_MODULES <= r->Ok_0.width,
        r is Ok && dots_in(size as int) >= MAX_SIDE_MODULES ==> r->Ok_0.width <= dots_in(size as int),
{
    let dots = (size / UNITS_PER_DOT) as u32;
    match qr_image(content, dots) {
        Ok((pixels, side)) => Ok(QrImage { pixels, width: side, height: side }),
        Err(e) => Err(QrImageError::Encode(e)),
    }
}

} // verus!
