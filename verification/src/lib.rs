//! Reading a battery report and laying out its figures.
//!
//! A report is a text of lines, each a key and a value around an `=`.
//! [`parse_report`] reads the six fields that it knows into an [`Info`];
//! [`Info::print`] lays the snapshot out in four rows for a terminal.

pub mod number;
pub mod parser;
pub mod report;
pub mod snapshot;
pub mod text;

pub use parser::{parse_chars, parse_report};
pub use report::{charging_symbol, format_opt, Style};
pub use snapshot::{Field, Info, ParseError};
