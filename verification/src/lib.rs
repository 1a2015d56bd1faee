//! Decimal file-size conversion.
//!
//! A quantity is written as `<value> <unit>`, with a unit among `b`, `kb`,
//! `mb` and `gb`. `parse_filesize` reads it, `Sizes::from_file_size` expands
//! it into bytes, kilobytes, megabytes and gigabytes, and `run` answers a
//! whole command line with the text to print.

pub mod decimal;
pub mod parse;
pub mod report;
pub mod sizes;
pub mod text;

pub use parse::{parse_filesize, ParseError};
pub use report::{run, Report};
pub use sizes::{FileSize, Sizes};
