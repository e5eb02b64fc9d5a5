//! Conversion between the three textual representations of a Starknet field
//! element: a `0x`-prefixed hexadecimal byte string, a decimal felt numeral,
//! and a short ASCII string (at most 31 bytes) packed big-endian into the
//! field element.

pub mod digits;
pub mod model;
pub mod bridge;
pub mod convert;
pub mod laws;
pub mod render;
