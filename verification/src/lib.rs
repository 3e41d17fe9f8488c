//! An in-memory relational query engine: a parser for a small SQL dialect and an
//! executor that runs the parsed queries against tables held in memory.
//!
//! - [`parse`] turns the text of queries into syntax trees: [`parse::lexer`] splits the
//!   text into tokens, [`parse::grammar`] says what the tokens denote, and
//!   [`parse::parser`] builds the trees.
//! - [`data`] holds values, rows, columns, tables and the database.
//! - [`execute`] runs queries: [`execute::evaluate`] gives expressions their values,
//!   [`execute::relation`] says what filter, sort, limit and join do to rows,
//!   [`execute::kernel`] does them to tables, [`execute::select`] puts a select query
//!   together, and [`execute::theorems`] states what holds of all of it.
//!
//! Every function says in its contract what it returns, over the views of its
//! arguments; the views are plain sequences of plain values.

pub mod data;
pub mod execute;
pub mod parse;
pub mod text;
