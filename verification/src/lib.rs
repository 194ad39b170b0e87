//! Conversion between integers and roman numerals.
//!
//! [`to`] writes an integer between 1 and [`MAX`] as its roman numeral, and
//! [`from`] reads such a numeral back. Every other integer and every other
//! text has no result.

pub mod decode;
pub mod encode;
pub mod laws;
pub mod numeral;
pub mod table;

pub use crate::decode::from;
pub use crate::encode::to;
pub use crate::table::MAX;
