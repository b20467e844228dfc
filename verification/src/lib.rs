//! Codec for a legacy broadcast-subtitle binary format: a fixed 1024-byte
//! header block (GSI) followed by one or more fixed 128-byte subtitle
//! records (TTI), each carrying timecodes and teletext-framed text.

pub mod bytesutil;
pub mod codepage;
pub mod codes;
pub mod decimal;
pub mod error;
pub mod gsi;
pub mod legacy;
pub mod stl;
pub mod teletext;
pub mod tti;

pub use codepage::CodePageNumber;
pub use codes::{DiskFormatCode, DisplayStandardCode, TimeCodeStatus};
pub use error::ParseError;
pub use gsi::GsiBlock;
pub use legacy::CharacterCodeTable;
pub use stl::{Stl, parse_stl_from_slice};
pub use tti::{CumulativeStatus, Justification, Time, TtiBlock, TtiFormat};
