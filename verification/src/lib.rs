//! Parsing and formatting for single lines of a line-oriented
//! flight-recorder log format. Each line starts with a one-letter
//! record-type tag followed by fixed-width fields; some record kinds
//! carry a variable trailing extension string that is decoded on demand
//! through byte-range descriptors.

pub mod d_record;
pub mod extension;
pub mod k_record;
pub mod util;
