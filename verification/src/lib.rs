//! Decoding of the TIFF structure that carries Exif attributes.
//!
//! The crate reads an untrusted byte buffer and produces the flat list of
//! fields found in its image file directories.  Every function is verified:
//! no read leaves the buffer, no arithmetic overflows, and each result is
//! stated over a mathematical model of the buffer.

pub mod datetime;
pub mod endian;
pub mod error;
pub mod guarantees;
pub mod tag;
pub mod tiff;
pub mod util;
pub mod value;

pub use datetime::DateTime;
pub use endian::{BigEndian, Endian, LittleEndian};
pub use error::Error;
pub use tag::{Context, Tag};
pub use tiff::{is_tiff, parse_exif, Field};
pub use value::{Rational, SRational, Value};
