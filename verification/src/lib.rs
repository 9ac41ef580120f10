//! Verified core of a spreadsheet clean-up tool.
//!
//! The library decides, from the content of one marker cell, whether a
//! row-range clean-up rule applies to a workbook, computes the list of cell
//! positions to clear, and applies the clears to an in-memory workbook.
//! File parsing and serialization stay outside, in the surrounding binary.

pub mod codec;
pub mod resolve;
pub mod scan;
pub mod text;
pub mod value;
pub mod workbook;

pub use codec::cell_ref;
pub use codec::column_to_letters;
pub use codec::letters_to_column;
pub use workbook::processed_output_path;
