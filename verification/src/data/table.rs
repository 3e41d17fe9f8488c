use crate::data::column::Column;
use crate::data::column::ColumnView;
use crate::data::column::columns_view;
use crate::data::row::Row;
use crate::data::row::rows_view;
use crate::data::value::Value;
use crate::data::value::ValueView;
use crate::data::value::assignable;
use crate::execute::evaluate::EvaluationError;
use crate::execute::evaluate::is_candidate;
use crate::execute::evaluate::name_matches;
use crate::execute::evaluate::opt_text;
use crate::execute::evaluate::resolve;
use crate::execute::select::Error as SelectError;
use crate::parse::ast::Column as ColumnName;
use crate::parse::ast::ColumnIdentifier;
use crate::text::chars_of;
use crate::text::find_last_dot;
use crate::text::range_eq;
use vstd::prelude::*;

verus! {

/// A table: its columns and its rows, in the order in which they were inserted.
///
/// The result of a query, and each intermediate result, is a table as well.
#[derive(Debug)]
pub struct Table {
    pub columns: Vec<Column>,
    pub rows: Vec<Row>,
}

/// Why two tables could not be united.
#[derive(Clone, Copy, Debug, PartialEq, Eq, Structural)]
pub enum Error {
    /// The two tables do not have the same columns.
    ColumnMismatch,
}

/// What a `Table` stands for.
pub struct TableView {
    pub columns: Seq<ColumnView>,
    pub rows: Seq<Seq<ValueView>>,
}

impl View for Table {
    type V = TableView;

    open spec fn view(&self) -> TableView {
        TableView { columns: columns_view(self.columns@), rows: rows_view(self.rows@) }
    }
}

/// Every row has one value for each column.
pub open spec fn rows_have_width(rows: Seq<Seq<ValueView>>, width: nat) -> bool {
    forall|i: int| 0 <= i < rows.len() ==> (#[trigger] rows[i]).len() == width
}

impl TableView {
    /// Every row has one value for each column.
    pub open spec fn well_shaped(self) -> bool {
        rows_have_width(self.rows, self.columns.len())
    }

    /// Every value may stand in its column.
    pub open spec fn well_typed(self) -> bool {
        forall|i: int, j: int|
            0 <= i < self.rows.len() && 0 <= j < self.columns.len() && j < self.rows[i].len()
                ==> assignable(#[trigger] self.rows[i][j], self.columns[j].datatype)
    }

    /// What holds of every table of a database: every row has one value for each
    /// column, and every value may stand in its column.
    pub open spec fn wf(self) -> bool {
        &&& self.well_shaped()
        &&& self.well_typed()
    }
}

/// The place of the first column with exactly that name, if there is one.
pub open spec fn column_place(columns: Seq<ColumnView>, name: Seq<char>) -> Option<int> {
    if exists|i: int| is_first_column(columns, name, i) {
        Some(choose|i: int| is_first_column(columns, name, i))
    } else {
        None
    }
}

/// Whether `i` is the place of the first column with exactly that name.
pub open spec fn is_first_column(columns: Seq<ColumnView>, name: Seq<char>, i: int) -> bool {
    &&& 0 <= i < columns.len()
    &&& columns[i].name == name
    &&& forall|j: int| 0 <= j < i ==> (#[trigger] columns[j]).name != name
}

/// Whether the names are those of the columns, each named once: as many names as
/// columns, no name twice, and every name that of a column.
pub open spec fn names_cover(columns: Seq<ColumnView>, names: Seq<Seq<char>>) -> bool {
    &&& names.len() == columns.len()
    &&& forall|i: int, j: int| 0 <= i < j < names.len() ==> names[i] != names[j]
    &&& forall|i: int| 0 <= i < names.len() ==> column_place(columns, #[trigger] names[i]) is Some
}

/// For each name the place of its column, where the names are those of the columns,
/// each named once.
pub open spec fn insert_places(columns: Seq<ColumnView>, names: Seq<Seq<char>>) -> Option<
    Seq<int>,
> {
    if names_cover(columns, names) {
        Some(Seq::new(names.len(), |i: int| column_place(columns, names[i])->0))
    } else {
        None
    }
}

/// The texts of a sequence of strings.
pub open spec fn texts_of(names: Seq<&str>) -> Seq<Seq<char>> {
    Seq::new(names.len(), |i: int| names[i]@)
}

/// Copies a sequence of columns.
pub fn clone_columns(columns: &Vec<Column>) -> (res: Vec<Column>)
    ensures
        columns_view(res@) == columns_view(columns@),
{
    let mut out: Vec<Column> = Vec::new();
    let mut i: usize = 0;
    while i < columns.len()
        invariant
            i <= columns.len(),
            out.len() == i,
            forall|j: int| 0 <= j < i ==> out[j]@ == columns[j]@,
        decreases columns.len() - i,
    {
        out.push(columns[i].clone());
        i += 1;
    }
    assert(columns_view(out@) =~= columns_view(columns@));
    out
}

/// Copies a sequence of rows.
pub fn clone_rows(rows: &Vec<Row>) -> (res: Vec<Row>)
    ensures
        rows_view(res@) == rows_view(rows@),
{
    let mut out: Vec<Row> = Vec::new();
    let mut i: usize = 0;
    while i < rows.len()
        invariant
            i <= rows.len(),
            out.len() == i,
            forall|j: int| 0 <= j < i ==> out[j]@ == rows[j]@,
        decreases rows.len() - i,
    {
        out.push(rows[i].clone());
        i += 1;
    }
    assert(rows_view(out@) =~= rows_view(rows@));
    out
}

impl PartialEq for Table {
    fn eq(&self, other: &Table) -> (r: bool) {
        if self.columns.len() != other.columns.len() || self.rows.len() != other.rows.len() {
            assert(self@.columns.len() != other@.columns.len() || self@.rows.len()
                != other@.rows.len());
            return false;
        }
        let mut c: usize = 0;
        while c < self.columns.len()
            invariant
                c <= self.columns.len(),
                self.columns.len() == other.columns.len(),
                forall|j: int| 0 <= j < c ==> self.columns[j]@ == other.columns[j]@,
            decreases self.columns.len() - c,
        {
            if !(self.columns[c] == other.columns[c]) {
                assert(self@.columns[c as int] != other@.columns[c as int]);
                return false;
            }
            c += 1;
        }
        let mut r: usize = 0;
        while r < self.rows.len()
            invariant
                r <= self.rows.len(),
                self.rows.len() == other.rows.len(),
                self.columns.len() == other.columns.len(),
                forall|j: int| 0 <= j < self.columns.len() ==> self.columns[j]@ == other.columns[j]@,
                forall|j: int| 0 <= j < r ==> self.rows[j]@ == other.rows[j]@,
            decreases self.rows.len() - r,
        {
            if !(self.rows[r] == other.rows[r]) {
                assert(self@.rows[r as int] != other@.rows[r as int]);
                return false;
            }
            r += 1;
        }
        assert(self@.columns =~= other@.columns);
        assert(self@.rows =~= other@.rows);
        true
    }
}

impl vstd::std_specs::cmp::PartialEqSpecImpl for Table {
    open spec fn obeys_eq_spec() -> bool {
        true
    }

    open spec fn eq_spec(&self, other: &Table) -> bool {
        self@ == other@
    }
}

impl Clone for Table {
    fn clone(&self) -> (res: Table)
        ensures
            res@ == self@,
    {
        Table { columns: clone_columns(&self.columns), rows: clone_rows(&self.rows) }
    }
}

/// Whether the name of a column has the given field and, where one is asked for, the
/// given scope.
pub fn column_matches(column: &Column, scope: &Option<Vec<char>>, field: &Vec<char>) -> (r: bool)
    ensures
        r == name_matches(
            column@.name,
            match scope {
                Some(s) => Some(s@),
                None => None,
            },
            field@,
        ),
{
    let name = chars_of(column.name.as_str());
    match find_last_dot(&name) {
        Some(dot) => {
            assert(name@.skip(dot + 1) =~= name@.subrange(dot + 1, name@.len() as int));
            assert(name@.take(dot as int) =~= name@.subrange(0, dot as int));
            if !range_eq(&name, dot + 1, name.len(), field) {
                return false;
            }
            match scope {
                Some(s) => range_eq(&name, 0, dot, s),
                None => true,
            }
        },
        None => {
            assert(name@ =~= name@.subrange(0, name@.len() as int));
            if !range_eq(&name, 0, name.len(), field) {
                return false;
            }
            scope.is_none()
        },
    }
}

/// Where a column reference resolves, it resolves to a column, and to the only one
/// that it may refer to.
pub proof fn lemma_resolve(columns: Seq<ColumnView>, identifier: ColumnIdentifier)
    ensures
        match resolve(columns, identifier) {
            Ok(idx) => 0 <= idx < columns.len() && is_candidate(columns[idx], identifier)
                && forall|j: int|
                0 <= j < columns.len() && is_candidate(#[trigger] columns[j], identifier) ==> j
                    == idx,
            Err(_) => true,
        },
{
    reveal(resolve);
    if resolve(columns, identifier) is Ok {
        let idx = resolve(columns, identifier)->Ok_0;
        assert(0 <= idx < columns.len() && is_candidate(columns[idx], identifier));
        assert forall|j: int|
            0 <= j < columns.len() && is_candidate(#[trigger] columns[j], identifier) implies j
            == idx by {
            if j < idx {
                assert(is_candidate(columns[j], identifier) && is_candidate(
                    columns[idx],
                    identifier,
                ));
            } else if idx < j {
                assert(is_candidate(columns[idx], identifier) && is_candidate(
                    columns[j],
                    identifier,
                ));
            }
        }
    }
}

impl Table {
    /// The index of the one column that a column reference refers to.
    ///
    /// A column is a candidate where its field is the name that is referred to and,
    /// where the reference has a scope, its scope is that scope. With no candidate the
    /// column is unknown, with more than one it is ambiguous; `*` refers to no single
    /// column.
    pub fn get_column_idx(columns: &Vec<Column>, column_identifier: &ColumnIdentifier) -> (res:
        Result<usize, SelectError>)
        ensures
            match res {
                Ok(idx) => resolve(columns_view(columns@), *column_identifier) == Ok::<int, SelectError>(
                    idx as int,
                ) && idx < columns.len(),
                Err(e) => resolve(columns_view(columns@), *column_identifier) == Err::<int, SelectError>(
                    e,
                ),
            },
    {
        let ghost cols = columns_view(columns@);
        let ghost ident = *column_identifier;
        proof {
            reveal(resolve);
        }
        match &column_identifier.name {
            ColumnName::Star => Err(
                SelectError::Evaluation(EvaluationError::Unsupported),
            ),
            ColumnName::Ident(name) => {
                let field = chars_of(name.0.as_str());
                let scope = match &column_identifier.alias {
                    Some(a) => Some(chars_of(a.0.as_str())),
                    None => None,
                };
                let mut found: Option<usize> = None;
                let mut i: usize = 0;
                while i < columns.len()
                    invariant
                        i <= columns.len(),
                        cols == columns_view(columns@),
                        ident == *column_identifier,
                        column_identifier.name == ColumnName::Ident(*name),
                        field@ == name.0@,
                        match scope {
                            Some(s) => Some(s@),
                            None => None,
                        } == opt_text(column_identifier.alias),
                        match found {
                            Some(f) => f < i && is_candidate(cols[f as int], ident) && forall|
                                j: int,
                            |
                                0 <= j < i && j != f ==> !is_candidate(#[trigger] cols[j], ident),
                            None => forall|j: int|
                                0 <= j < i ==> !is_candidate(#[trigger] cols[j], ident),
                        },
                    decreases columns.len() - i,
                {
                    if column_matches(&columns[i], &scope, &field) {
                        assert(is_candidate(cols[i as int], ident));
                        match found {
                            Some(f) => {
                                proof {
                                    reveal(resolve);
                                }
                                assert(is_candidate(cols[f as int], ident));
                                return Err(SelectError::AmbiguousColumn);
                            },
                            None => {
                                found = Some(i);
                            },
                        }
                    }
                    i += 1;
                }
                match found {
                    Some(f) => {
                        proof {
                            assert(is_candidate(cols[f as int], ident));
                            lemma_resolve(cols, ident);
                        }
                        Ok(f)
                    },
                    None => Err(SelectError::UnknownColumn),
                }
            },
        }
    }

    /// Puts `prefix` before the name of every column.
    pub fn prefix_column_names(&mut self, prefix: &str)
        ensures
            final(self).rows == old(self).rows,
            final(self).columns.len() == old(self).columns.len(),
            forall|i: int|
                0 <= i < old(self).columns.len() ==> (#[trigger] final(self).columns[i])@
                    == (ColumnView {
                    name: prefix@ + old(self).columns[i]@.name,
                    datatype: old(self).columns[i]@.datatype,
                }),
    {
        let mut i: usize = 0;
        while i < self.columns.len()
            invariant
                i <= self.columns.len(),
                self.rows == old(self).rows,
                self.columns.len() == old(self).columns.len(),
                forall|j: int|
                    0 <= j < i ==> (#[trigger] self.columns[j])@ == (ColumnView {
                        name: prefix@ + old(self).columns[j]@.name,
                        datatype: old(self).columns[j]@.datatype,
                    }),
                forall|j: int| i <= j < self.columns.len() ==> self.columns[j] == old(self).columns[j],
            decreases self.columns.len() - i,
        {
            let name = String::from_str(prefix).concat(self.columns[i].name.as_str());
            self.columns[i].name = name;
            i += 1;
        }
    }

    /// The place of the first column with exactly that name.
    pub fn column_index(&self, name: &str) -> (place: Option<usize>)
        ensures
            match place {
                Some(i) => column_place(self@.columns, name@) == Some(i as int) && i
                    < self.columns.len(),
                None => column_place(self@.columns, name@) == None::<int>,
            },
    {
        let mut i: usize = 0;
        while i < self.columns.len()
            invariant
                i <= self.columns.len(),
                forall|j: int| 0 <= j < i ==> (#[trigger] self@.columns[j]).name != name@,
            decreases self.columns.len() - i,
        {
            if crate::text::str_eq(self.columns[i].name.as_str(), name) {
                assert(is_first_column(self@.columns, name@, i as int));
                return Some(i);
            }
            i += 1;
        }
        None
    }

    /// Checks the column names of an insert query against this table and gives, for
    /// each name, the place of its column.
    ///
    /// The names fit where they are as many as the columns, no name occurs twice and
    /// every name is that of a column.
    pub fn validate_insert_query_columns(&self, insert_query_columns: &[&str]) -> (res: Option<
        Vec<usize>,
    >)
        ensures
            match res {
                Some(places) => insert_places(self@.columns, texts_of(insert_query_columns@))
                    is Some && places.len() == insert_query_columns.len() && forall|i: int|
                    0 <= i < places.len() ==> (#[trigger] places[i]) as int == insert_places(
                        self@.columns,
                        texts_of(insert_query_columns@),
                    )->0[i] && places[i] < self.columns.len(),
                None => insert_places(self@.columns, texts_of(insert_query_columns@))
                    == None::<Seq<int>>,
            },
    {
        let ghost cols = self@.columns;
        let ghost names = texts_of(insert_query_columns@);
        if insert_query_columns.len() != self.columns.len() {
            return None;
        }
        let mut used: Vec<bool> = Vec::new();
        let mut c: usize = 0;
        while c < self.columns.len()
            invariant
                c <= self.columns.len(),
                used.len() == c,
                forall|j: int| 0 <= j < c ==> !(#[trigger] used[j]),
            decreases self.columns.len() - c,
        {
            used.push(false);
            c += 1;
        }
        let mut places: Vec<usize> = Vec::new();
        let mut i: usize = 0;
        while i < insert_query_columns.len()
            invariant
                i <= insert_query_columns.len(),
                cols == self@.columns,
                names == texts_of(insert_query_columns@),
                names.len() == cols.len(),
                used.len() == cols.len(),
                places.len() == i,
                forall|k: int|
                    #![trigger places[k]]
                    #![trigger names[k]]
                    0 <= k < i ==> column_place(cols, names[k]) == Some(places[k] as int)
                        && places[k] < cols.len(),
                forall|k: int, l: int| 0 <= k < l < i ==> names[k] != names[l],
                forall|j: int|
                    0 <= j < used.len() ==> ((#[trigger] used[j]) <==> exists|k: int|
                        0 <= k < i && places[k] == j),
            decreases insert_query_columns.len() - i,
        {
            match self.column_index(insert_query_columns[i]) {
                None => {
                    assert(column_place(cols, names[i as int]) is None);
                    return None;
                },
                Some(p) => {
                    if used[p] {
                        let ghost k = choose|k: int| 0 <= k < i && places[k] == p;
                        assert(is_first_column(cols, names[k], p as int));
                        assert(is_first_column(cols, names[i as int], p as int));
                        assert(names[k] == names[i as int]);
                        return None;
                    }
                    assert forall|k: int| 0 <= k < i implies names[k] != names[i as int] by {
                        if names[k] == names[i as int] {
                            assert(places[k] == p);
                        }
                    }
                    let ghost used_before = used@;
                    let ghost places_before = places@;
                    used.set(p, true);
                    places.push(p);
                    assert forall|j: int| 0 <= j < used.len() implies ((#[trigger] used[j])
                        <==> exists|k: int| 0 <= k < i + 1 && places[k] == j) by {
                        if j == p {
                            assert(places[i as int] == j);
                        } else if used[j] {
                            assert(used_before[j]);
                            let k = choose|k: int| 0 <= k < i && places_before[k] == j;
                            assert(0 <= k < i + 1 && places[k] == j);
                        } else {
                            assert(!used_before[j]);
                            assert forall|k: int| 0 <= k < i + 1 implies places[k] != j by {
                                if k < i {
                                    assert(places_before[k] == places[k]);
                                }
                            }
                        }
                    }
                },
            }
            i += 1;
        }
        assert(names_cover(cols, names));
        Some(places)
    }

    /// Whether a row has one value for each column, each of them assignable to its
    /// column.
    pub fn row_fits(&self, row: &Row) -> (ok: bool)
        ensures
            ok == (row@.len() == self.columns.len() && forall|j: int|
                0 <= j < self.columns.len() ==> assignable(
                    #[trigger] row@[j],
                    self@.columns[j].datatype,
                )),
    {
        if row.0.len() != self.columns.len() {
            return false;
        }
        let mut j: usize = 0;
        while j < self.columns.len()
            invariant
                j <= self.columns.len(),
                row.0.len() == self.columns.len(),
                forall|k: int|
                    0 <= k < j ==> assignable(#[trigger] row@[k], self@.columns[k].datatype),
            decreases self.columns.len() - j,
        {
            if !row.0[j].assignable_to(self.columns[j].datatype) {
                assert(!assignable(row@[j as int], self@.columns[j as int].datatype));
                return false;
            }
            j += 1;
        }
        true
    }

    /// Whether this table is well formed: every row has one value for each column, and
    /// every value may stand in its column.
    pub fn is_well_formed(&self) -> (ok: bool)
        ensures
            ok == self@.wf(),
    {
        let mut i: usize = 0;
        while i < self.rows.len()
            invariant
                i <= self.rows.len(),
                forall|r: int|
                    0 <= r < i ==> (#[trigger] self@.rows[r]).len() == self@.columns.len(),
                forall|r: int, c: int|
                    0 <= r < i && 0 <= c < self@.columns.len() ==> assignable(
                        #[trigger] self@.rows[r][c],
                        self@.columns[c].datatype,
                    ),
            decreases self.rows.len() - i,
        {
            assert(self@.rows[i as int] == self.rows[i as int]@);
            if !self.row_fits(&self.rows[i]) {
                proof {
                    let row = self@.rows[i as int];
                    if row.len() == self@.columns.len() {
                        let j = choose|j: int|
                            0 <= j < self.columns.len() && !assignable(
                                #[trigger] row[j],
                                self@.columns[j].datatype,
                            );
                        assert(!assignable(self@.rows[i as int][j], self@.columns[j].datatype));
                    }
                }
                return false;
            }
            i += 1;
        }
        true
    }

    /// Moves the rows of `other` behind the rows of this table, where both have the
    /// same columns. Where they have not, both tables are left as they were.
    pub fn union(&mut self, other: &mut Table) -> (res: Result<(), Error>)
        ensures
            final(self)@.columns == old(self)@.columns,
            final(other)@.columns == old(other)@.columns,
            match res {
                Ok(_) => old(self)@.columns == old(other)@.columns && final(self)@.rows == old(
                    self,
                )@.rows + old(other)@.rows && final(other)@.rows.len() == 0,
                Err(_) => old(self)@.columns != old(other)@.columns && final(self)@ == old(self)@
                    && final(other)@ == old(other)@,
            },
    {
        if self.columns.len() != other.columns.len() {
            assert(self@.columns.len() != other@.columns.len());
            return Err(Error::ColumnMismatch);
        }
        let mut c: usize = 0;
        while c < self.columns.len()
            invariant
                c <= self.columns.len(),
                self.columns.len() == other.columns.len(),
                *self == *old(self),
                *other == *old(other),
                forall|j: int| 0 <= j < c ==> self.columns[j]@ == other.columns[j]@,
            decreases self.columns.len() - c,
        {
            if !(self.columns[c] == other.columns[c]) {
                assert(self@.columns[c as int] != other@.columns[c as int]);
                return Err(Error::ColumnMismatch);
            }
            c += 1;
        }
        assert(self@.columns =~= other@.columns);
        let ghost mine = self@.rows;
        let ghost theirs = other@.rows;
        self.rows.append(&mut other.rows);
        assert(self@.rows =~= mine + theirs);
        Ok(())
    }

    /// Keeps the first `limit` rows.
    pub fn limit(&mut self, limit: usize)
        ensures
            final(self).columns == old(self).columns,
            final(self)@.rows == crate::execute::relation::limited(old(self)@.rows, limit as nat),
    {
        self.rows.truncate(limit);
        proof {
            let before = old(self)@.rows;
            let after = self@.rows;
            if limit <= before.len() {
                assert(after =~= before.take(limit as int));
            } else {
                assert(after =~= before);
            }
        }
    }

    /// A row of nulls, one for each column.
    pub fn new_values_vec(&self) -> (values: Vec<Value>)
        ensures
            values.len() == self.columns.len(),
            forall|i: int| 0 <= i < values.len() ==> values[i] == Value::Null,
    {
        let mut values: Vec<Value> = Vec::new();
        let mut i: usize = 0;
        while i < self.columns.len()
            invariant
                i <= self.columns.len(),
                values.len() == i,
                forall|j: int| 0 <= j < i ==> values[j] == Value::Null,
            decreases self.columns.len() - i,
        {
            values.push(Value::Null);
            i += 1;
        }
        values
    }

    /// Whether `value` may stand in the column at `column_index`.
    pub fn compatible_type(&self, column_index: usize, value: &Value) -> (ok: bool)
        requires
            column_index < self.columns.len(),
        ensures
            ok == assignable(value@, self@.columns[column_index as int].datatype),
    {
        value.assignable_to(self.columns[column_index].datatype)
    }
}

} // verus!
