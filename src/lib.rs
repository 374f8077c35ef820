//! A hexadecimal dump formatter: bytes in, rows of text out, each row an
//! address column, a column of encoded words and a printable-character column.

pub mod color;
pub mod decode;
pub mod dump;
pub mod line;
pub mod mode;
pub mod radix;
