//! Typed source modules from tabular data: cell values, column type
//! inference, sheet construction and two code generators.

pub mod delimited;
pub mod document;
pub mod error;
pub mod generate;
pub mod infer;
pub mod parse;
pub mod range;
pub mod sheet;
pub mod text;
pub mod value;

pub use error::SheetError;
pub use generate::Config;
pub use sheet::Sheet;
pub use value::{Value, Values};
