//! Data held in memory: values, rows, columns, tables and the database.

pub mod column;
pub mod database;
pub mod datatype;
pub mod format;
pub mod row;
pub mod table;
pub mod value;
pub mod value_list;

pub use column::Column;
pub use database::Database;
pub use datatype::Datatype;
pub use row::Row;
pub use table::Table;
pub use value::Value;
pub use value_list::ValueList;
