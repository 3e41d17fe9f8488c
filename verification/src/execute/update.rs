use crate::data::column::ColumnView;
use crate::data::database::lookup;
use crate::data::database::Database;
use crate::data::database::DatabaseView;
use crate::data::row::Row;
use crate::data::table::column_place;
use crate::execute::kernel::condition_flags;
use crate::data::table::rows_have_width;
use crate::data::table::Table;
use crate::data::table::TableView;
use crate::data::value::assignable;
use crate::data::value::views_of;
use crate::data::value::Value;
use crate::data::value::ValueView;
use crate::execute::evaluate::literal_value;
use crate::execute::evaluate::verdicts;
use crate::execute::insert::all_assignable;
use crate::execute::insert::placed;
use crate::execute::relation::collect_first;
use crate::execute::relation::is_first_error;
use crate::execute::relation::lemma_collect_all;
use crate::execute::relation::lemma_collect_fails;
use crate::parse::ast::Assignment;
use crate::parse::ast::UpdateQuery;
use crate::text::decimal;
use crate::text::decimal_string;
use vstd::prelude::*;

verus! {

/// Rows were updated.
#[derive(Debug)]
pub struct Success {
    pub num_updated: usize,
}

/// Why an update failed.
#[derive(Clone, Copy, Debug, PartialEq, Eq, Structural)]
pub enum Error {
    /// The database holds no table of that name.
    UnknownTable,
    /// An assignment names a column that the table does not have.
    UnknownColumn,
    /// A value may not stand in the column that it is assigned to.
    IncompatibleDatatype,
    /// The condition failed on a row, or gave a value that is no boolean.
    Condition(crate::execute::select::Error),
}

/// The message of an update error.
pub open spec fn error_text(error: Error) -> Seq<char> {
    match error {
        Error::UnknownTable => "No table with that name exists"@,
        Error::UnknownColumn => "No column with that name exists"@,
        Error::IncompatibleDatatype => "A value does not fit the type of its column"@,
        Error::Condition(e) => crate::execute::select::error_text(e),
    }
}

impl Success {
    /// The message that reports the success: `UPDATE` and the number of rows.
    pub fn to_string(&self) -> (s: String)
        ensures
            s@ == "UPDATE "@ + decimal(self.num_updated as nat),
    {
        let mut s = String::from_str("UPDATE ");
        s.append(decimal_string(self.num_updated as u64).as_str());
        s
    }
}

impl Error {
    /// The message of this error.
    pub fn to_string(&self) -> (s: String)
        ensures
            s@ == error_text(*self),
    {
        match self {
            Error::UnknownTable => String::from_str("No table with that name exists"),
            Error::UnknownColumn => String::from_str("No column with that name exists"),
            Error::IncompatibleDatatype => String::from_str(
                "A value does not fit the type of its column",
            ),
            Error::Condition(e) => e.to_string(),
        }
    }
}

/// For each assignment the place of its column, where the table has them all. A
/// column is found by its exact name.
pub open spec fn assignment_places(columns: Seq<ColumnView>, assignments: Seq<Assignment>) -> Option<
    Seq<int>,
> {
    if forall|k: int|
        0 <= k < assignments.len() ==> column_place(
            columns,
            (#[trigger] assignments[k]).column.0@,
        ) is Some {
        Some(
            Seq::new(assignments.len(), |k: int| column_place(columns, assignments[k].column.0@)->0),
        )
    } else {
        None
    }
}

/// The values that the assignments assign.
pub open spec fn assigned_values(assignments: Seq<Assignment>) -> Seq<ValueView> {
    Seq::new(assignments.len(), |k: int| literal_value(assignments[k].value))
}

/// How many of the first `n` flags are set.
pub open spec fn count_true(flags: Seq<bool>, n: nat) -> nat
    decreases n,
{
    if n == 0 {
        0
    } else {
        count_true(flags, (n - 1) as nat) + if flags[n - 1] {
            1nat
        } else {
            0nat
        }
    }
}

/// The rows with the values put at their places in each row whose flag is set.
pub open spec fn updated_rows(
    rows: Seq<Seq<ValueView>>,
    flags: Seq<bool>,
    places: Seq<int>,
    values: Seq<ValueView>,
) -> Seq<Seq<ValueView>> {
    Seq::new(
        rows.len(),
        |r: int|
            if flags[r] {
                placed(rows[r], places, values, values.len())
            } else {
                rows[r]
            },
    )
}

/// The database after an update query, with the number of rows that were updated; or
/// the reason why the update fails.
///
/// The condition is evaluated against every row before any row is changed. Every
/// row that satisfies it gets the assigned values, in the order of the assignments.
/// Where a row satisfies it and a value may not stand in its column, the update
/// fails.
pub open spec fn update_result(query: UpdateQuery, database: DatabaseView) -> Result<
    (DatabaseView, nat),
    Error,
> {
    match lookup(database, query.table.0@) {
        None => Err(Error::UnknownTable),
        Some(t) => {
            let table = database[t].1;
            match assignment_places(table.columns, query.assignments@) {
                None => Err(Error::UnknownColumn),
                Some(places) => match collect_first(
                    verdicts(query.filter, table.columns, table.rows, Some(database)),
                    table.rows.len(),
                ) {
                    Err(e) => Err(Error::Condition(e)),
                    Ok(flags) => {
                        let values = assigned_values(query.assignments@);
                        let n = count_true(flags, flags.len());
                        if n > 0 && !all_assignable(table.columns, places, values) {
                            Err(Error::IncompatibleDatatype)
                        } else {
                            Ok(
                                (
                                    database.update(
                                        t,
                                        (
                                            database[t].0,
                                            TableView {
                                                columns: table.columns,
                                                rows: updated_rows(
                                                    table.rows,
                                                    flags,
                                                    places,
                                                    values,
                                                ),
                                            },
                                        ),
                                    ),
                                    n,
                                ),
                            )
                        }
                    },
                },
            }
        },
    }
}

/// The places of a sequence of indices, as integers.
pub open spec fn places_view(places: Seq<usize>) -> Seq<int> {
    Seq::new(places.len(), |k: int| places[k] as int)
}

/// Putting values at places of a row keeps its length, and leaves in each slot what
/// was there or one of the values whose place it is.
pub proof fn lemma_placed(row: Seq<ValueView>, places: Seq<int>, values: Seq<ValueView>, n: nat)
    requires
        n <= values.len(),
        n <= places.len(),
        forall|k: int| 0 <= k < n ==> 0 <= #[trigger] places[k] < row.len(),
    ensures
        placed(row, places, values, n).len() == row.len(),
        forall|c: int|
            0 <= c < row.len() ==> (#[trigger] placed(row, places, values, n)[c]) == row[c]
                || exists|k: int| 0 <= k < n && places[k] == c && placed(row, places, values, n)[c]
                == values[k],
    decreases n,
{
    if n > 0 {
        lemma_placed(row, places, values, (n - 1) as nat);
        let before = placed(row, places, values, (n - 1) as nat);
        let after = placed(row, places, values, n);
        assert forall|c: int| 0 <= c < row.len() implies (#[trigger] after[c]) == row[c]
            || exists|k: int| 0 <= k < n && places[k] == c && after[c] == values[k] by {
            if c == places[n - 1] {
                assert(after[c] == values[n - 1]);
            } else {
                assert(after[c] == before[c]);
                if before[c] != row[c] {
                    let k = choose|k: int|
                        0 <= k < n - 1 && places[k] == c && before[c] == values[k];
                    assert(0 <= k < n && places[k] == c && after[c] == values[k]);
                }
            }
        }
    }
}

/// Puts the values at their places in a row.
pub fn place_values(row: &mut Row, places: &Vec<usize>, values: &Vec<Value>)
    requires
        places.len() == values.len(),
        forall|k: int| 0 <= k < places.len() ==> (#[trigger] places[k]) < old(row).0.len(),
    ensures
        final(row)@ == placed(
            old(row)@,
            places_view(places@),
            views_of(values@),
            values.len() as nat,
        ),
{
    let ghost before = row@;
    let ghost ps = places_view(places@);
    let ghost vs = views_of(values@);
    let mut k: usize = 0;
    while k < values.len()
        invariant
            k <= values.len(),
            places.len() == values.len(),
            ps == places_view(places@),
            vs == views_of(values@),
            row.0.len() == old(row).0.len(),
            forall|j: int| 0 <= j < places.len() ==> (#[trigger] places[j]) < row.0.len(),
            row@ == placed(before, ps, vs, k as nat),
        decreases values.len() - k,
    {
        let ghost sofar = row@;
        row.0.set(places[k], values[k].clone());
        assert(row@ =~= sofar.update(ps[k as int], vs[k as int]));
        k += 1;
    }
}

impl Table {
    /// Puts the values at their places in each row whose flag is set.
    pub fn update_rows(&mut self, flags: &Vec<bool>, places: &Vec<usize>, values: &Vec<Value>)
        requires
            old(self)@.well_shaped(),
            flags.len() == old(self).rows.len(),
            places.len() == values.len(),
            forall|k: int|
                0 <= k < places.len() ==> (#[trigger] places[k]) < old(self).columns.len(),
        ensures
            final(self).columns == old(self).columns,
            final(self)@.rows == updated_rows(
                old(self)@.rows,
                flags@,
                places_view(places@),
                views_of(values@),
            ),
    {
        let ghost before = self@.rows;
        let ghost ps = places_view(places@);
        let ghost vs = views_of(values@);
        let mut r: usize = 0;
        while r < self.rows.len()
            invariant
                r <= self.rows.len(),
                self.columns == old(self).columns,
                self.rows.len() == before.len(),
                flags.len() == before.len(),
                places.len() == values.len(),
                ps == places_view(places@),
                vs == views_of(values@),
                rows_have_width(before, self.columns.len() as nat),
                forall|k: int|
                    0 <= k < places.len() ==> (#[trigger] places[k]) < self.columns.len(),
                forall|j: int|
                    0 <= j < r ==> (#[trigger] self.rows[j])@ == updated_rows(
                        before,
                        flags@,
                        ps,
                        vs,
                    )[j],
                forall|j: int| r <= j < self.rows.len() ==> (#[trigger] self.rows[j])@ == before[j],
            decreases self.rows.len() - r,
        {
            if flags[r] {
                assert(before[r as int].len() == self.columns.len());
                assert(self.rows[r as int].0.len() == self.rows[r as int]@.len());
                place_values(&mut self.rows[r], places, values);
            }
            r += 1;
        }
        assert(self@.rows =~= updated_rows(before, flags@, ps, vs));
    }
}

/// How many of the flags are set.
pub fn count_flags(flags: &Vec<bool>) -> (n: usize)
    ensures
        n == count_true(flags@, flags.len() as nat),
{
    let mut n: usize = 0;
    let mut i: usize = 0;
    while i < flags.len()
        invariant
            i <= flags.len(),
            n <= i,
            n == count_true(flags@, i as nat),
        decreases flags.len() - i,
    {
        if flags[i] {
            n += 1;
        }
        i += 1;
    }
    n
}

impl Database {
    /// Assigns values to columns in every row of a table that satisfies a condition,
    /// and reports how many rows those were.
    ///
    /// The table has to exist and to have every column that is assigned to; the
    /// condition has to give a boolean on every row; and where a row satisfies it,
    /// every value has to be assignable to its column. Where one of these fails, in
    /// this order, the database is left as it was.
    pub fn execute_update(&mut self, query: UpdateQuery) -> (res: Result<Success, Error>)
        requires
            old(self).wf(),
        ensures
            match res {
                Ok(s) => update_result(query, old(self)@) == Ok::<(DatabaseView, nat), Error>(
                    (final(self)@, s.num_updated as nat),
                ),
                Err(e) => update_result(query, old(self)@) == Err::<(DatabaseView, nat), Error>(e)
                    && final(self)@ == old(self)@,
            },
            final(self).wf(),
    {
        let t = match self.position(query.table.0.as_str()) {
            None => {
                return Err(Error::UnknownTable);
            },
            Some(t) => t,
        };
        let ghost table = self@[t as int].1;
        assert(table == self.tables[t as int].1@);
        let mut places: Vec<usize> = Vec::new();
        let mut values: Vec<Value> = Vec::new();
        let mut k: usize = 0;
        #[verifier::loop_isolation(false)]
        while k < query.assignments.len()
            invariant
                k <= query.assignments.len(),
                places.len() == k,
                values.len() == k,
                forall|j: int|
                    #![trigger query.assignments[j]]
                    #![trigger places[j]]
                    0 <= j < k ==> column_place(table.columns, query.assignments[j].column.0@)
                        == Some(places[j] as int) && places[j] < table.columns.len(),
                forall|j: int|
                    0 <= j < k ==> (#[trigger] values[j])@ == literal_value(
                        query.assignments[j].value,
                    ),
            decreases query.assignments.len() - k,
        {
            match self.tables[t].1.column_index(query.assignments[k].column.0.as_str()) {
                None => {
                    return Err(Error::UnknownColumn);
                },
                Some(p) => {
                    places.push(p);
                    values.push(query.assignments[k].value.to_value());
                },
            }
            k += 1;
        }
        let ghost ps = assignment_places(table.columns, query.assignments@)->0;
        let ghost vs = assigned_values(query.assignments@);
        assert(places_view(places@) =~= ps);
        assert(views_of(values@) =~= vs);
        let ghost verdict_seq = verdicts(query.filter, table.columns, table.rows, Some(self@));
        let flags = match condition_flags(
            &self.tables[t].1.columns,
            &self.tables[t].1.rows,
            &query.filter,
            self,
        ) {
            Err(e) => {
                proof {
                    let i = choose|i: int| is_first_error(verdict_seq, i, e);
                    lemma_collect_fails(verdict_seq, i, e, table.rows.len());
                }
                return Err(Error::Condition(e));
            },
            Ok(flags) => flags,
        };
        proof {
            lemma_collect_all(verdict_seq, flags@, table.rows.len());
            assert(flags@.take(table.rows.len() as int) =~= flags@);
        }
        let n = count_flags(&flags);
        if n > 0 {
            let mut j: usize = 0;
            #[verifier::loop_isolation(false)]
            while j < values.len()
                invariant
                    j <= values.len(),
                    forall|i: int|
                        0 <= i < j ==> assignable(#[trigger] vs[i], table.columns[ps[i]].datatype),
                decreases values.len() - j,
            {
                if !self.tables[t].1.compatible_type(places[j], &values[j]) {
                    assert(!assignable(vs[j as int], table.columns[ps[j as int]].datatype));
                    return Err(Error::IncompatibleDatatype);
                }
                j += 1;
            }
            assert(all_assignable(table.columns, ps, vs));
        }
        self.tables[t].1.update_rows(&flags, &places, &values);
        proof {
            let after = self.tables[t as int].1@;
            assert(self@ =~= old(self)@.update(
                t as int,
                (old(self)@[t as int].0, TableView { columns: table.columns, rows: after.rows }),
            ));
            assert forall|a: int| 0 <= a < after.rows.len() implies (#[trigger] after.rows[a]).len()
                == after.columns.len() && forall|b: int|
                0 <= b < after.columns.len() ==> assignable(
                    #[trigger] after.rows[a][b],
                    after.columns[b].datatype,
                ) by {
                assert(table.rows[a].len() == table.columns.len());
                if flags[a] {
                    lemma_placed(table.rows[a], ps, vs, vs.len());
                    assert(n > 0) by {
                        lemma_count_true(flags@, flags.len() as nat, a);
                    }
                    assert forall|b: int| 0 <= b < after.columns.len() implies assignable(
                        #[trigger] after.rows[a][b],
                        after.columns[b].datatype,
                    ) by {
                        if after.rows[a][b] != table.rows[a][b] {
                            let k = choose|k: int|
                                0 <= k < vs.len() && ps[k] == b && after.rows[a][b] == vs[k];
                            assert(assignable(vs[k], table.columns[ps[k]].datatype));
                        } else {
                            assert(assignable(table.rows[a][b], table.columns[b].datatype));
                        }
                    }
                } else {
                    assert(after.rows[a] == table.rows[a]);
                    assert forall|b: int| 0 <= b < after.columns.len() implies assignable(
                        #[trigger] after.rows[a][b],
                        after.columns[b].datatype,
                    ) by {
                        assert(assignable(table.rows[a][b], table.columns[b].datatype));
                    }
                }
            }
            assert(after.wf());
        }
        Ok(Success { num_updated: n })
    }
}

/// Where a flag is set, the count of the set flags is not zero.
pub proof fn lemma_count_true(flags: Seq<bool>, n: nat, i: int)
    requires
        0 <= i < n,
        flags[i],
    ensures
        count_true(flags, n) > 0,
    decreases n,
{
    if i < n - 1 {
        lemma_count_true(flags, (n - 1) as nat, i);
    }
}

} // verus!
