//! Verified core of a clipboard bitmap capture tool: it interprets a
//! device-independent bitmap (DIB) memory block — header, optional color
//! table, pixel payload — and re-encodes it as a portable bitmap file or
//! as an RGB pixel buffer handed to a PNG encoder.
//!
//! The surrounding application only moves bytes: it pulls the locked block
//! off the OS clipboard, hands it here as a plain slice, and writes out
//! whatever these functions return. Every interpretation of the block —
//! header fields, encoding classification, color-table extraction, bounds
//! checks, pixel reconstruction, container layout — is stated in the
//! contracts and proved.
pub mod bytes;
pub mod dib;
pub mod fmt;
pub mod header;
pub mod png_enc;
