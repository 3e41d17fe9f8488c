use crate::data::column::ColumnView;
use crate::data::database::lookup;
use crate::data::database::Database;
use crate::data::database::DatabaseView;
use crate::data::row::Row;
use crate::data::table::insert_places;
use crate::data::table::texts_of;
use crate::data::table::TableView;
use crate::data::value::assignable;
use crate::data::value::views_of;
use crate::data::value::ValueView;
use crate::execute::evaluate::literal_value;
use crate::parse::ast::Identifier;
use crate::parse::ast::InsertQuery;
use crate::parse::ast::Literal;
use crate::text::decimal;
use crate::text::decimal_string;
use vstd::prelude::*;

verus! {

/// Rows were inserted.
#[derive(Debug)]
pub struct Success {
    pub num_inserted: u32,
}

/// Why a row could not be inserted.
#[derive(Clone, Copy, Debug, PartialEq, Eq, Structural)]
pub enum Error {
    /// The query names more or fewer columns than it gives values.
    ColumnCountMismatch,
    /// The database holds no table of that name.
    UnknownTable,
    /// The columns that the query names are not those of the table, each once.
    ColumnSetMismatch,
    /// A value may not stand in the column that it is given for.
    IncompatibleDatatype,
}

/// The message of an insert error.
pub open spec fn error_text(error: Error) -> Seq<char> {
    match error {
        Error::ColumnCountMismatch => "The number of columns differs from the number of values"@,
        Error::UnknownTable => "No table with that name exists"@,
        Error::ColumnSetMismatch => "The columns are not those of the table"@,
        Error::IncompatibleDatatype => "A value does not fit the type of its column"@,
    }
}

impl Success {
    /// The message that reports the success: `INSERT` and the number of rows.
    pub fn to_string(&self) -> (s: String)
        ensures
            s@ == "INSERT "@ + decimal(self.num_inserted as nat),
    {
        let mut s = String::from_str("INSERT ");
        s.append(decimal_string(self.num_inserted as u64).as_str());
        s
    }
}

impl Error {
    /// The message of this error.
    pub fn to_string(&self) -> (s: String)
        ensures
            s@ == error_text(*self),
    {
        match self {
            Error::ColumnCountMismatch => String::from_str(
                "The number of columns differs from the number of values",
            ),
            Error::UnknownTable => String::from_str("No table with that name exists"),
            Error::ColumnSetMismatch => String::from_str("The columns are not those of the table"),
            Error::IncompatibleDatatype => String::from_str(
                "A value does not fit the type of its column",
            ),
        }
    }
}

/// The texts of a sequence of identifiers.
pub open spec fn identifier_texts(identifiers: Seq<Identifier>) -> Seq<Seq<char>> {
    Seq::new(identifiers.len(), |i: int| identifiers[i].0@)
}

/// The values of a sequence of literals.
pub open spec fn literal_values(literals: Seq<Literal>) -> Seq<ValueView> {
    Seq::new(literals.len(), |i: int| literal_value(literals[i]))
}

/// A row with the first `n` of the values put at their places.
pub open spec fn placed(row: Seq<ValueView>, places: Seq<int>, values: Seq<ValueView>, n: nat) -> Seq<
    ValueView,
>
    decreases n,
{
    if n == 0 {
        row
    } else {
        placed(row, places, values, (n - 1) as nat).update(places[n - 1], values[n - 1])
    }
}

/// Whether each value may stand in the column at its place.
pub open spec fn all_assignable(
    columns: Seq<ColumnView>,
    places: Seq<int>,
    values: Seq<ValueView>,
) -> bool {
    forall|i: int|
        0 <= i < values.len() ==> assignable(#[trigger] values[i], columns[places[i]].datatype)
}

/// The row that an insert query appends to a table with these columns: for each
/// named column the value given for it.
pub open spec fn inserted_row(columns: Seq<ColumnView>, places: Seq<int>, values: Seq<ValueView>) -> Seq<
    ValueView,
> {
    placed(Seq::new(columns.len(), |i: int| ValueView::Null), places, values, values.len())
}

/// The database after an insert query: with one more row at the end of the table, or
/// the reason why the row cannot be inserted.
pub open spec fn insert_result(query: InsertQuery, database: DatabaseView) -> Result<
    DatabaseView,
    Error,
> {
    if query.columns@.len() != query.values@.len() {
        Err(Error::ColumnCountMismatch)
    } else {
        match lookup(database, query.table.0@) {
            None => Err(Error::UnknownTable),
            Some(t) => {
                let table = database[t].1;
                match insert_places(table.columns, identifier_texts(query.columns@)) {
                    None => Err(Error::ColumnSetMismatch),
                    Some(places) => {
                        let values = literal_values(query.values@);
                        if all_assignable(table.columns, places, values) {
                            Ok(
                                database.update(
                                    t,
                                    (
                                        database[t].0,
                                        TableView {
                                            columns: table.columns,
                                            rows: table.rows.push(
                                                inserted_row(table.columns, places, values),
                                            ),
                                        },
                                    ),
                                ),
                            )
                        } else {
                            Err(Error::IncompatibleDatatype)
                        }
                    },
                }
            },
        }
    }
}

/// The names of a sequence of identifiers.
pub fn names_of(identifiers: &Vec<Identifier>) -> (names: Vec<&str>)
    ensures
        texts_of(names@) == identifier_texts(identifiers@),
{
    let mut names: Vec<&str> = Vec::new();
    let mut i: usize = 0;
    while i < identifiers.len()
        invariant
            i <= identifiers.len(),
            names.len() == i,
            forall|j: int| 0 <= j < i ==> (#[trigger] names[j])@ == identifiers[j].0@,
        decreases identifiers.len() - i,
    {
        names.push(identifiers[i].0.as_str());
        i += 1;
    }
    assert(texts_of(names@) =~= identifier_texts(identifiers@));
    names
}

impl Database {
    /// Appends one row to a table.
    ///
    /// The query has to name as many columns as it gives values, the table has to
    /// exist, the named columns have to be those of the table, each once and in any
    /// order, and each value has to be assignable to its column. Where one of these
    /// fails, in this order, the database is left as it was.
    pub fn execute_insert(&mut self, query: InsertQuery) -> (res: Result<Success, Error>)
        requires
            old(self).wf(),
        ensures
            match res {
                Ok(s) => insert_result(query, old(self)@) == Ok::<DatabaseView, Error>(
                    final(self)@,
                ) && s.num_inserted == 1,
                Err(e) => insert_result(query, old(self)@) == Err::<DatabaseView, Error>(e)
                    && final(self)@ == old(self)@,
            },
            final(self).wf(),
    {
        if query.columns.len() != query.values.len() {
            return Err(Error::ColumnCountMismatch);
        }
        let t = match self.position(query.table.0.as_str()) {
            None => {
                return Err(Error::UnknownTable);
            },
            Some(t) => t,
        };
        let ghost table = self@[t as int].1;
        assert(table == self.tables[t as int].1@);
        let names = names_of(&query.columns);
        let places = match self.tables[t].1.validate_insert_query_columns(names.as_slice()) {
            None => {
                return Err(Error::ColumnSetMismatch);
            },
            Some(places) => places,
        };
        let ghost ps = insert_places(table.columns, identifier_texts(query.columns@))->0;
        let ghost values = literal_values(query.values@);
        let ghost blank = Seq::new(table.columns.len(), |i: int| ValueView::Null);
        let mut row = self.tables[t].1.new_values_vec();
        assert(views_of(row@) =~= blank);
        let mut i: usize = 0;
        #[verifier::loop_isolation(false)]
        while i < query.values.len()
            invariant
                i <= query.values.len(),
                t < self.tables.len(),
                *self == *old(self),
                table == self.tables[t as int].1@,
                table.wf(),
                places.len() == query.values.len(),
                ps.len() == places.len(),
                forall|k: int|
                    0 <= k < places.len() ==> (#[trigger] places[k]) as int == ps[k] && places[k]
                        < table.columns.len(),
                values == literal_values(query.values@),
                row.len() == table.columns.len(),
                views_of(row@) == placed(blank, ps, values, i as nat),
                forall|k: int|
                    0 <= k < i ==> assignable(#[trigger] values[k], table.columns[ps[k]].datatype),
                forall|c: int|
                    0 <= c < row.len() ==> assignable(
                        #[trigger] views_of(row@)[c],
                        table.columns[c].datatype,
                    ),
            decreases query.values.len() - i,
        {
            let value = query.values[i].to_value();
            assert(value@ == values[i as int]);
            if !self.tables[t].1.compatible_type(places[i], &value) {
                assert(!assignable(values[i as int], table.columns[ps[i as int]].datatype));
                return Err(Error::IncompatibleDatatype);
            }
            let ghost before = views_of(row@);
            row.set(places[i], value);
            assert(views_of(row@) =~= before.update(ps[i as int], values[i as int]));
            i += 1;
        }
        assert(all_assignable(table.columns, ps, values));
        let new_row = Row(row);
        assert(new_row@ == inserted_row(table.columns, ps, values));
        self.tables[t].1.rows.push(new_row);
        proof {
            let after = self.tables[t as int].1@;
            assert(after.columns == table.columns);
            assert(after.rows =~= table.rows.push(new_row@));
            assert(self@ =~= old(self)@.update(
                t as int,
                (old(self)@[t as int].0, TableView { columns: table.columns, rows: after.rows }),
            ));
            assert forall|a: int, b: int|
                0 <= a < after.rows.len() && 0 <= b < after.columns.len() && b
                    < after.rows[a].len() implies assignable(
                #[trigger] after.rows[a][b],
                after.columns[b].datatype,
            ) by {
                if a < table.rows.len() {
                    assert(after.rows[a] == table.rows[a]);
                } else {
                    assert(after.rows[a] == new_row@);
                }
            }
            assert(after.wf());
        }
        Ok(Success { num_inserted: 1 })
    }
}

} // verus!
