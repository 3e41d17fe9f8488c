use crate::data::column::columns_view;
use crate::data::column::Column;
use crate::data::column::ColumnView;
use crate::data::database::lookup;
use crate::data::database::Database;
use crate::data::database::DatabaseView;
use crate::data::table::Table;
use crate::data::table::TableView;
use crate::parse::ast::CreateTableColumn;
use crate::parse::ast::CreateTableQuery;
use vstd::prelude::*;

verus! {

/// A table was created.
#[derive(Debug)]
pub struct Success();

/// Why a table could not be created.
#[derive(Clone, Copy, Debug, PartialEq, Eq, Structural)]
pub enum Error {
    /// The database holds a table of that name already.
    TableExists,
}

impl Success {
    /// The message that reports the success.
    pub fn to_string(&self) -> (s: String)
        ensures
            s@ == "CREATED TABLE"@,
    {
        String::from_str("CREATED TABLE")
    }
}

impl Error {
    /// The message of this error.
    pub fn to_string(&self) -> (s: String)
        ensures
            s@ == "Table with that name already exists"@,
    {
        String::from_str("Table with that name already exists")
    }
}

/// The columns of a table that a query creates.
pub open spec fn created_columns(columns: Seq<CreateTableColumn>) -> Seq<ColumnView> {
    Seq::new(
        columns.len(),
        |i: int| ColumnView { name: columns[i].name.0@, datatype: columns[i].datatype },
    )
}

/// The database after a create table query: with a new, empty table behind the
/// others, unless it holds a table of that name already.
pub open spec fn create_table_result(query: CreateTableQuery, database: DatabaseView) -> Result<
    DatabaseView,
    Error,
> {
    if lookup(database, query.table_name.0@) is Some {
        Err(Error::TableExists)
    } else {
        Ok(
            database.push(
                (
                    query.table_name.0@,
                    TableView { columns: created_columns(query.columns@), rows: Seq::empty() },
                ),
            ),
        )
    }
}

impl Database {
    /// Creates a table without rows. Fails, and changes nothing, where the database
    /// holds a table of that name already.
    pub fn execute_create_table(&mut self, query: CreateTableQuery) -> (res: Result<
        Success,
        Error,
    >)
        requires
            old(self).wf(),
        ensures
            match res {
                Ok(_) => create_table_result(query, old(self)@) == Ok::<DatabaseView, Error>(
                    final(self)@,
                ),
                Err(e) => create_table_result(query, old(self)@) == Err::<DatabaseView, Error>(e)
                    && final(self)@ == old(self)@,
            },
            final(self).wf(),
    {
        let mut columns: Vec<Column> = Vec::new();
        let mut i: usize = 0;
        while i < query.columns.len()
            invariant
                i <= query.columns.len(),
                columns.len() == i,
                forall|j: int|
                    0 <= j < i ==> (#[trigger] columns[j])@ == created_columns(query.columns@)[j],
            decreases query.columns.len() - i,
        {
            columns.push(
                Column { name: query.columns[i].name.0.clone(), datatype: query.columns[i].datatype },
            );
            i += 1;
        }
        assert(columns_view(columns@) =~= created_columns(query.columns@));
        match self.create_table(query.table_name.0.clone(), columns) {
            Err(e) => {
                return Err(e);
            },
            Ok(_) => {},
        }
        Ok(Success())
    }
}

} // verus!
