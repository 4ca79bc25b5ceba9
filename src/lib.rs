//! Schema-driven generation of synthetic tables, with verified parsing of
//! schemas, row ranges and delete targets, and verified table editing.

pub mod text;
pub mod schema;
pub mod error;
pub mod sequence;
pub mod delete;
pub mod table;
pub mod fake;
pub mod registry;
pub mod dataframe;
pub mod csv;
