//! Expression evaluation and the filtered table scan of a small relational
//! query engine.

pub mod ast;
pub mod context;
pub mod error;
pub mod evaluate;
pub mod evaluated;
pub mod fetch;
pub mod storage;
pub mod value;

pub use ast::{BinaryOperator, Expr, Ident, Literal, Query, QuoteStyle};
pub use context::{FilterContext, Frame};
pub use error::{Error, Side};
pub use evaluate::{evaluate, FetchedRow};
pub use evaluated::Evaluated;
pub use fetch::{fetch, fetch_columns, Fetch, Filter};
pub use storage::{ScanItem, Storage, Table};
pub use value::Value;
