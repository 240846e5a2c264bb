//! An in-memory SQL engine: a value system, an expression evaluator, a catalog
//! of schemas and tables, and a register machine that runs lowered statements.
pub mod value;
pub mod table;
pub mod expr;
pub mod catalog;
pub mod store;
pub mod ic;
pub mod sort;
pub mod ops;
pub mod vm;
