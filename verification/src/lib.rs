//! A to-do list library with a verified SQL-like query engine.
//!
//! Tasks have a fixed five-field schema (`title`, `descr`, `date`,
//! `category`, `is_done`). A restricted `SELECT ... [WHERE ...]` query
//! language filters a task collection: conjunctions of comparisons and
//! `LIKE` (substring) tests over the schema fields.

pub mod ast;
pub mod errors;
pub mod lex;
pub mod list;
pub mod query;
pub mod text;
pub mod traits;
