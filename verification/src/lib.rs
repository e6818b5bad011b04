//! Tableau renders tabular data into bordered, fixed-width text blocks.

pub mod cell;
pub mod extent;
pub mod layout;
pub mod merge;
pub mod row;
pub mod style;
pub mod table;
pub mod text;
pub mod wrap;

pub use crate::cell::Alignment;
pub use crate::cell::Cell;
pub use crate::row::Row;
pub use crate::style::Style;
pub use crate::table::Table;
