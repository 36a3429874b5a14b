//! Layout and pagination of printable QR sheets for a list of secrets.
//!
//! An ordered list of label/secret entries is cut into page-sized
//! chunks. Each chunk becomes a grid page, one QR code and label per
//! entry, and a recap page whose single QR code holds the whole chunk as
//! TOML text.
pub mod layout;
pub mod page;
pub mod qr_multi;
pub mod qr_single;
pub mod input;
pub mod pagination;
pub mod qr_code;
