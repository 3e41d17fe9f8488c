//! Running queries against a database.

pub mod create_table;
pub mod evaluate;
pub mod insert;
pub mod kernel;
pub mod relation;
pub mod select;
pub mod theorems;
pub mod update;

use crate::data::database::Database;
use crate::data::format::table_text;
use crate::text::decimal;
use crate::data::database::DatabaseView;
use crate::data::table::TableView;
use crate::execute::create_table::create_table_result;
use crate::execute::insert::insert_result;
use crate::execute::select::select_result;
use crate::execute::update::update_result;
use crate::parse::ast::Query;
use vstd::prelude::*;

verus! {

/// What a query gave.
#[derive(Debug)]
pub enum Success {
    Select(select::Success),
    Insert(insert::Success),
    CreateTable(create_table::Success),
    Update(update::Success),
}

/// Why a query failed.
#[derive(Clone, Copy, Debug, PartialEq, Eq, Structural)]
pub enum Error {
    Select(select::Error),
    Insert(insert::Error),
    CreateTable(create_table::Error),
    Update(update::Error),
}

/// What a query gave, as text: for a select the table, for the other queries a short
/// report.
pub open spec fn success_text(success: Success) -> Seq<char> {
    match success {
        Success::Select(t) => table_text(t@),
        Success::Insert(s) => "INSERT "@ + decimal(s.num_inserted as nat),
        Success::CreateTable(_) => "CREATED TABLE"@,
        Success::Update(s) => "UPDATE "@ + decimal(s.num_updated as nat),
    }
}

/// The message of an error.
pub open spec fn error_text(error: Error) -> Seq<char> {
    match error {
        Error::Select(e) => select::error_text(e),
        Error::Insert(e) => insert::error_text(e),
        Error::CreateTable(_) => "Table with that name already exists"@,
        Error::Update(e) => update::error_text(e),
    }
}

impl Success {
    /// What the query gave, as text.
    pub fn to_string(&self) -> (s: String)
        ensures
            s@ == success_text(*self),
    {
        match self {
            Success::Select(t) => t.to_string(),
            Success::Insert(r) => r.to_string(),
            Success::CreateTable(r) => r.to_string(),
            Success::Update(r) => r.to_string(),
        }
    }
}

impl Error {
    /// The message of this error.
    pub fn to_string(&self) -> (s: String)
        ensures
            s@ == error_text(*self),
    {
        match self {
            Error::Select(e) => e.to_string(),
            Error::Insert(e) => e.to_string(),
            Error::CreateTable(e) => e.to_string(),
            Error::Update(e) => e.to_string(),
        }
    }
}

impl From<select::Error> for Error {
    fn from(e: select::Error) -> (r: Error) {
        Error::Select(e)
    }
}

impl vstd::std_specs::convert::FromSpecImpl<select::Error> for Error {
    open spec fn obeys_from_spec() -> bool {
        true
    }

    open spec fn from_spec(e: select::Error) -> Error {
        Error::Select(e)
    }
}

impl From<insert::Error> for Error {
    fn from(e: insert::Error) -> (r: Error) {
        Error::Insert(e)
    }
}

impl vstd::std_specs::convert::FromSpecImpl<insert::Error> for Error {
    open spec fn obeys_from_spec() -> bool {
        true
    }

    open spec fn from_spec(e: insert::Error) -> Error {
        Error::Insert(e)
    }
}

impl From<create_table::Error> for Error {
    fn from(e: create_table::Error) -> (r: Error) {
        Error::CreateTable(e)
    }
}

impl vstd::std_specs::convert::FromSpecImpl<create_table::Error> for Error {
    open spec fn obeys_from_spec() -> bool {
        true
    }

    open spec fn from_spec(e: create_table::Error) -> Error {
        Error::CreateTable(e)
    }
}

impl From<update::Error> for Error {
    fn from(e: update::Error) -> (r: Error) {
        Error::Update(e)
    }
}

impl vstd::std_specs::convert::FromSpecImpl<update::Error> for Error {
    open spec fn obeys_from_spec() -> bool {
        true
    }

    open spec fn from_spec(e: update::Error) -> Error {
        Error::Update(e)
    }
}

impl Database {
    /// Runs a query of any kind.
    ///
    /// A select query leaves the database as it is and gives a table. The other
    /// queries change the database where they succeed, and leave it as it is where
    /// they fail.
    pub fn execute(&mut self, query: Query) -> (res: Result<Success, Error>)
        requires
            old(self).wf(),
        ensures
            final(self).wf(),
            res is Err ==> final(self)@ == old(self)@,
            match query {
                Query::SelectQuery(q) => final(self)@ == old(self)@ && match res {
                    Ok(Success::Select(t)) => select_result(q, old(self)@) == Ok::<
                        TableView,
                        select::Error,
                    >(t@),
                    Err(Error::Select(e)) => select_result(q, old(self)@) == Err::<
                        TableView,
                        select::Error,
                    >(e),
                    _ => false,
                },
                Query::InsertQuery(q) => match res {
                    Ok(Success::Insert(s)) => insert_result(q, old(self)@) == Ok::<
                        DatabaseView,
                        insert::Error,
                    >(final(self)@) && s.num_inserted == 1,
                    Err(Error::Insert(e)) => insert_result(q, old(self)@) == Err::<
                        DatabaseView,
                        insert::Error,
                    >(e),
                    _ => false,
                },
                Query::CreateTableQuery(q) => match res {
                    Ok(Success::CreateTable(_)) => create_table_result(q, old(self)@) == Ok::<
                        DatabaseView,
                        create_table::Error,
                    >(final(self)@),
                    Err(Error::CreateTable(e)) => create_table_result(q, old(self)@) == Err::<
                        DatabaseView,
                        create_table::Error,
                    >(e),
                    _ => false,
                },
                Query::UpdateQuery(q) => match res {
                    Ok(Success::Update(s)) => update_result(q, old(self)@) == Ok::<
                        (DatabaseView, nat),
                        update::Error,
                    >((final(self)@, s.num_updated as nat)),
                    Err(Error::Update(e)) => update_result(q, old(self)@) == Err::<
                        (DatabaseView, nat),
                        update::Error,
                    >(e),
                    _ => false,
                },
            },
    {
        match query {
            Query::SelectQuery(q) => match self.execute_select(&q) {
                Ok(t) => Ok(Success::Select(t)),
                Err(e) => Err(Error::Select(e)),
            },
            Query::InsertQuery(q) => match self.execute_insert(q) {
                Ok(s) => Ok(Success::Insert(s)),
                Err(e) => Err(Error::Insert(e)),
            },
            Query::CreateTableQuery(q) => match self.execute_create_table(q) {
                Ok(s) => Ok(Success::CreateTable(s)),
                Err(e) => Err(Error::CreateTable(e)),
            },
            Query::UpdateQuery(q) => match self.execute_update(q) {
                Ok(s) => Ok(Success::Update(s)),
                Err(e) => Err(Error::Update(e)),
            },
        }
    }
}

} // verus!
