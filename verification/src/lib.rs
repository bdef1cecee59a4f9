//! seam-probe: the decision logic of a generic NDJSON probe for FFI
//! libraries and Unix-socket seams.

pub mod hex;
pub mod output;
pub mod text;
pub mod manifest;
pub mod stdin;
pub mod varint;
pub mod socket;
pub mod ffi;
pub mod inspect;
