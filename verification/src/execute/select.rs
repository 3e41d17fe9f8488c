use crate::data::column::columns_view;
use crate::data::column::Column as TableColumn;
use crate::data::column::ColumnView;
use crate::data::row::rows_view;
use crate::data::row::Row;
use crate::data::table::rows_have_width;
use crate::data::value::views_of;
use crate::data::value::Value;
use crate::execute::evaluate::evaluate;
use crate::execute::evaluate::opt_text;
use crate::text::chars_of;
use crate::text::find_last_dot;
use crate::text::range_eq;
use crate::text::scope_of;
use crate::data::database::lookup;
use crate::data::database::Database;
use crate::data::table::Table;
use crate::data::database::DatabaseView;
use crate::data::datatype::Datatype;
use crate::data::table::TableView;
use crate::data::value::datatype_of;
use crate::data::value::ValueView;
use crate::execute::evaluate::eval;
use crate::execute::evaluate::eval_rows;
use crate::execute::evaluate::literal_value;
use crate::execute::evaluate::resolve;
use crate::execute::evaluate::star_matches;
use crate::execute::evaluate::verdict;
use crate::execute::evaluate::verdicts;
use crate::execute::evaluate::EvaluationError;
use crate::execute::relation::candidate;
use crate::execute::relation::filter_by;
use crate::execute::relation::join_by;
use crate::execute::relation::limited;
use crate::execute::relation::sort_by;
use crate::parse::ast::Column;
use crate::parse::ast::ColumnIdentifier;
use crate::parse::ast::Expression;
use crate::parse::ast::Join;
use crate::parse::ast::JoinKind;
use crate::parse::ast::OrderBy;
use crate::parse::ast::SelectQuery;
use crate::parse::ast::TableIdentifier;
use crate::text::stamped;
use vstd::prelude::*;

verus! {

/// The result of a select query: a table.
pub type Success = Table;

/// Why a select query, or the evaluation of an expression, failed.
#[derive(Clone, Copy, Debug, PartialEq, Eq, Structural)]
pub enum Error {
    /// The query names a table that the database does not hold.
    UnknownTable,
    /// A column reference fits no column.
    UnknownColumn,
    /// A column reference fits more than one column.
    AmbiguousColumn,
    /// An expression could not be evaluated.
    Evaluation(EvaluationError),
}

/// The message of a select error.
pub open spec fn error_text(error: Error) -> Seq<char> {
    match error {
        Error::UnknownTable => "No table with that name exists"@,
        Error::UnknownColumn => "No column with that name exists"@,
        Error::AmbiguousColumn => "More than one column has that name"@,
        Error::Evaluation(e) => crate::execute::evaluate::evaluation_error_text(e),
    }
}

impl Error {
    /// The message of this error.
    pub fn to_string(&self) -> (s: String)
        ensures
            s@ == error_text(*self),
    {
        match self {
            Error::UnknownTable => String::from_str("No table with that name exists"),
            Error::UnknownColumn => String::from_str("No column with that name exists"),
            Error::AmbiguousColumn => String::from_str("More than one column has that name"),
            Error::Evaluation(e) => e.to_string(),
        }
    }
}

/// The scope under which the columns of a table are known in a query: its alias if it
/// has one, else its name.
pub open spec fn scope_name(table: TableIdentifier) -> Seq<char> {
    table.scope()
}

/// The columns with their names stamped with a scope.
pub open spec fn stamp_columns(columns: Seq<ColumnView>, scope: Seq<char>) -> Seq<ColumnView> {
    columns.map_values(
        |c: ColumnView| ColumnView { name: stamped(scope, c.name), datatype: c.datatype },
    )
}

/// A table of the database as a query sees it: its rows, and its columns under the
/// scope of the query.
pub open spec fn source_table(database: DatabaseView, table: TableIdentifier) -> Result<
    TableView,
    Error,
> {
    match lookup(database, table.name.0@) {
        None => Err(Error::UnknownTable),
        Some(i) => Ok(
            TableView {
                columns: stamp_columns(database[i].1.columns, scope_name(table)),
                rows: database[i].1.rows,
            },
        ),
    }
}

/// The verdicts of a join condition on the candidate rows of one outer row: one for
/// each inner row.
pub open spec fn row_verdicts(
    kind: JoinKind,
    condition: Expression,
    columns: Seq<ColumnView>,
    outer: Seq<ValueView>,
    inner: Seq<Seq<ValueView>>,
    database: DatabaseView,
) -> Seq<Result<bool, Error>>
    decreases condition, 1nat,
{
    Seq::new(
        inner.len(),
        |j: int|
            verdict(
                eval(condition, Some((columns, candidate(kind, outer, inner[j]))), Some(database)),
            ),
    )
}

/// The verdicts of a join condition: one row of verdicts for each outer row, with one
/// verdict for each inner row.
pub open spec fn join_verdicts(
    kind: JoinKind,
    condition: Expression,
    columns: Seq<ColumnView>,
    outer: Seq<Seq<ValueView>>,
    inner: Seq<Seq<ValueView>>,
    database: DatabaseView,
) -> Seq<Seq<Result<bool, Error>>>
    decreases condition, 2nat,
{
    Seq::new(
        outer.len(),
        |i: int| row_verdicts(kind, condition, columns, outer[i], inner, database),
    )
}

/// The join of two tables.
pub open spec fn join_tables(
    left: TableView,
    right: TableView,
    condition: Expression,
    kind: JoinKind,
    database: DatabaseView,
) -> Result<TableView, Error>
    decreases condition, 3nat,
{
    let columns = left.columns + right.columns;
    let outer = if kind == JoinKind::Right {
        right.rows
    } else {
        left.rows
    };
    let inner = if kind == JoinKind::Right {
        left.rows
    } else {
        right.rows
    };
    match join_by(
        kind,
        outer,
        inner,
        join_verdicts(kind, condition, columns, outer, inner, database),
        left.columns.len(),
        right.columns.len(),
    ) {
        Err(e) => Err(e),
        Ok(rows) => Ok(TableView { columns: columns, rows: rows }),
    }
}

/// The root table joined with the first `n` joined tables.
pub open spec fn joined(joins: Seq<Join>, n: nat, root: TableView, database: DatabaseView) -> Result<
    TableView,
    Error,
>
    decreases joins, n,
{
    if n == 0 || n > joins.len() {
        Ok(root)
    } else {
        match joined(joins, (n - 1) as nat, root, database) {
            Err(e) => Err(e),
            Ok(left) => match source_table(database, joins[n - 1].table) {
                Err(e) => Err(e),
                Ok(right) => join_tables(
                    left,
                    right,
                    joins[n - 1].condition,
                    joins[n - 1].kind,
                    database,
                ),
            },
        }
    }
}

/// The rows that satisfy the condition of the query, if it has one.
pub open spec fn filtered(filter: Option<Expression>, table: TableView, database: DatabaseView) -> Result<
    TableView,
    Error,
>
    decreases filter, 2nat,
{
    match filter {
        None => Ok(table),
        Some(f) => match filter_by(
            table.rows,
            verdicts(f, table.columns, table.rows, Some(database)),
        ) {
            Err(e) => Err(e),
            Ok(rows) => Ok(TableView { columns: table.columns, rows: rows }),
        },
    }
}

/// The rows sorted as the query asks, if it asks.
pub open spec fn ordered(sort: Option<OrderBy>, table: TableView, database: DatabaseView) -> Result<
    TableView,
    Error,
>
    decreases sort, 2nat,
{
    match sort {
        None => Ok(table),
        Some(s) => match sort_by(
            table.rows,
            eval_rows(s.expr, table.columns, table.rows, Some(database)),
            s.direction,
        ) {
            Err(e) => Err(e),
            Ok(rows) => Ok(TableView { columns: table.columns, rows: rows }),
        },
    }
}

/// The number of rows that the query asks for, if it sets a limit. The limit is
/// evaluated against no row and has to be a number.
pub open spec fn limit_of(limit: Option<Expression>, database: DatabaseView) -> Result<
    Option<nat>,
    Error,
>
    decreases limit, 2nat,
{
    match limit {
        None => Ok(None),
        Some(l) => match eval(l, None, Some(database)) {
            Ok(ValueView::Number(n)) => Ok(Some(n as nat)),
            Ok(_) => Err(Error::Evaluation(EvaluationError::NonNumber)),
            Err(e) => Err(e),
        },
    }
}

/// The tables of a select query joined: the root table with each joined table in
/// turn.
pub open spec fn queried(query: SelectQuery, database: DatabaseView) -> Result<TableView, Error>
    decreases query, 0nat,
{
    match source_table(database, query.table.root_table) {
        Err(e) => Err(e),
        Ok(root) => joined(query.table.joins@, query.table.joins@.len(), root, database),
    }
}

/// A table filtered, then sorted, then limited, as a select query asks.
pub open spec fn transformed(query: SelectQuery, table: TableView, database: DatabaseView) -> Result<
    TableView,
    Error,
>
    decreases query, 0nat,
{
    match filtered(query.filter, table, database) {
        Err(e) => Err(e),
        Ok(f) => match ordered(query.sort, f, database) {
            Err(e) => Err(e),
            Ok(s) => match limit_of(query.limit, database) {
                Err(e) => Err(e),
                Ok(None) => Ok(s),
                Ok(Some(n)) => Ok(TableView { columns: s.columns, rows: limited(s.rows, n) }),
            },
        },
    }
}

/// The table as it stands when its transformation ends: filtered, sorted and limited
/// as far as that went without an error.
pub open spec fn transformed_so_far(
    query: SelectQuery,
    table: TableView,
    database: DatabaseView,
) -> TableView {
    match filtered(query.filter, table, database) {
        Err(_) => table,
        Ok(f) => match ordered(query.sort, f, database) {
            Err(_) => f,
            Ok(s) => match limit_of(query.limit, database) {
                Ok(Some(n)) => TableView { columns: s.columns, rows: limited(s.rows, n) },
                _ => s,
            },
        },
    }
}

/// The working result of a select query: its tables joined, then filtered, sorted and
/// limited.
pub open spec fn working(query: SelectQuery, database: DatabaseView) -> Result<TableView, Error>
    decreases query, 1nat,
{
    match queried(query, database) {
        Err(e) => Err(e),
        Ok(t) => transformed(query, t, database),
    }
}

/// Of the first `n` items, those that stand under a column that `*` or `scope.*`
/// stands for, in their order.
pub open spec fn star_slots<T>(
    columns: Seq<ColumnView>,
    identifier: ColumnIdentifier,
    items: Seq<T>,
    n: nat,
) -> Seq<T>
    decreases n,
{
    if n == 0 {
        Seq::empty()
    } else {
        let before = star_slots(columns, identifier, items, (n - 1) as nat);
        if star_matches(columns[n - 1], identifier) {
            before.push(items[n - 1])
        } else {
            before
        }
    }
}

/// The places of the first `n` columns that `*` or `scope.*` stands for.
pub open spec fn star_indices(columns: Seq<ColumnView>, identifier: ColumnIdentifier, n: nat) -> Seq<
    int,
> {
    star_slots(columns, identifier, Seq::new(columns.len(), |k: int| k), n)
}

/// What `*` selects of any items are the items at the places of its columns.
pub proof fn lemma_star_slots<T>(
    columns: Seq<ColumnView>,
    identifier: ColumnIdentifier,
    items: Seq<T>,
    n: nat,
)
    requires
        n <= columns.len(),
    ensures
        star_slots(columns, identifier, items, n).len() == star_indices(
            columns,
            identifier,
            n,
        ).len(),
        forall|p: int|
            0 <= p < star_indices(columns, identifier, n).len() ==> 0 <= #[trigger] star_indices(
                columns,
                identifier,
                n,
            )[p] < n,
        forall|p: int|
            0 <= p < star_indices(columns, identifier, n).len() ==> #[trigger] star_slots(
                columns,
                identifier,
                items,
                n,
            )[p] == items[star_indices(columns, identifier, n)[p]],
    decreases n,
{
    if n > 0 {
        lemma_star_slots(columns, identifier, items, (n - 1) as nat);
    }
}

/// The name of the column of a literal.
pub open spec fn literal_column_name() -> Seq<char> {
    "?column?"@
}

/// The name of the column of `count(*)`.
pub open spec fn count_column_name() -> Seq<char> {
    "count"@
}

/// The column that an expression other than `*` gives to the result: for a column
/// reference the column it refers to, for a literal a column of the literal's type,
/// for an operator the column of its left operand.
pub open spec fn scalar_column(expr: Expression, columns: Seq<ColumnView>) -> Result<
    ColumnView,
    Error,
>
    decreases expr,
{
    match expr {
        Expression::ColumnIdentifier(i) => match resolve(columns, i) {
            Ok(idx) => Ok(columns[idx]),
            Err(e) => Err(e),
        },
        Expression::Literal(l) => Ok(
            ColumnView { name: literal_column_name(), datatype: datatype_of(literal_value(l)) },
        ),
        Expression::BinaryOp(b) => scalar_column(*b.left, columns),
        _ => Err(Error::Evaluation(EvaluationError::Unsupported)),
    }
}

/// The identifier of a `*` or `scope.*` expression.
pub open spec fn star_of(expr: Expression) -> Option<ColumnIdentifier> {
    match expr {
        Expression::ColumnIdentifier(i) => if i.name is Star {
            Some(i)
        } else {
            None
        },
        _ => None,
    }
}

/// The columns that one expression of a select list gives to the result.
pub open spec fn expression_columns(expr: Expression, columns: Seq<ColumnView>) -> Result<
    Seq<ColumnView>,
    Error,
> {
    match star_of(expr) {
        Some(i) => Ok(star_slots(columns, i, columns, columns.len())),
        None => match scalar_column(expr, columns) {
            Ok(c) => Ok(seq![c]),
            Err(e) => Err(e),
        },
    }
}

/// The columns that the first `n` expressions of a select list give to the result.
pub open spec fn projected_columns(list: Seq<Expression>, n: nat, columns: Seq<ColumnView>) -> Result<
    Seq<ColumnView>,
    Error,
>
    decreases n,
{
    if n == 0 {
        Ok(Seq::empty())
    } else {
        match projected_columns(list, (n - 1) as nat, columns) {
            Err(e) => Err(e),
            Ok(before) => match expression_columns(list[n - 1], columns) {
                Err(e) => Err(e),
                Ok(more) => Ok(before + more),
            },
        }
    }
}

/// The values that one expression of a select list gives to a row of the result.
pub open spec fn expression_values(
    expr: Expression,
    columns: Seq<ColumnView>,
    row: Seq<ValueView>,
    database: DatabaseView,
) -> Result<Seq<ValueView>, Error>
    decreases expr, 1nat,
{
    match star_of(expr) {
        Some(i) => Ok(star_slots(columns, i, row, columns.len())),
        None => match eval(expr, Some((columns, row)), Some(database)) {
            Ok(v) => Ok(seq![v]),
            Err(e) => Err(e),
        },
    }
}

/// The values that the first `n` expressions of a select list give to a row of the
/// result.
pub open spec fn projected_row(
    list: Seq<Expression>,
    n: nat,
    columns: Seq<ColumnView>,
    row: Seq<ValueView>,
    database: DatabaseView,
) -> Result<Seq<ValueView>, Error>
    decreases list, n,
{
    if n == 0 || n > list.len() {
        Ok(Seq::empty())
    } else {
        match projected_row(list, (n - 1) as nat, columns, row, database) {
            Err(e) => Err(e),
            Ok(before) => match expression_values(list[n - 1], columns, row, database) {
                Err(e) => Err(e),
                Ok(more) => Ok(before + more),
            },
        }
    }
}

/// The first `m` rows of the result of a projection.
pub open spec fn projected_rows(
    list: Seq<Expression>,
    columns: Seq<ColumnView>,
    rows: Seq<Seq<ValueView>>,
    m: nat,
    database: DatabaseView,
) -> Result<Seq<Seq<ValueView>>, Error>
    decreases list, list.len() + 1 + m,
{
    if m == 0 {
        Ok(Seq::empty())
    } else {
        match projected_rows(list, columns, rows, (m - 1) as nat, database) {
            Err(e) => Err(e),
            Ok(before) => match projected_row(list, list.len(), columns, rows[m - 1], database) {
                Err(e) => Err(e),
                Ok(row) => Ok(before.push(row)),
            },
        }
    }
}

/// The table that reports a number of rows.
pub open spec fn count_table(n: nat) -> Result<TableView, Error> {
    if n <= u32::MAX {
        Ok(
            TableView {
                columns: seq![
                    ColumnView { name: count_column_name(), datatype: Datatype::Number },
                ],
                rows: seq![seq![ValueView::Number(n as u32)]],
            },
        )
    } else {
        Err(Error::Evaluation(EvaluationError::Overflow))
    }
}

/// The projection of a working result by a select list. A list that begins with
/// `count(*)` gives the number of rows; any other list gives its columns, then for
/// each row its values.
pub open spec fn project(list: Seq<Expression>, table: TableView, database: DatabaseView) -> Result<
    TableView,
    Error,
>
    decreases list, list.len() + 2 + table.rows.len(),
{
    if list.len() > 0 && list[0] is CountStar {
        count_table(table.rows.len())
    } else {
        match projected_columns(list, list.len(), table.columns) {
            Err(e) => Err(e),
            Ok(columns) => match projected_rows(
                list,
                table.columns,
                table.rows,
                table.rows.len(),
                database,
            ) {
                Err(e) => Err(e),
                Ok(rows) => Ok(TableView { columns: columns, rows: rows }),
            },
        }
    }
}

/// The result of a select query on a database.
pub open spec fn select_result(query: SelectQuery, database: DatabaseView) -> Result<
    TableView,
    Error,
>
    decreases query, 2nat,
{
    match working(query, database) {
        Err(e) => Err(e),
        Ok(w) => project(query.select_list@, w, database),
    }
}

/// What the result of a select query stands for.
pub open spec fn table_view(res: Result<Table, Error>) -> Result<TableView, Error> {
    match res {
        Ok(t) => Ok(t@),
        Err(e) => Err(e),
    }
}

/// From the `k`-th join on, joining goes on failing as it failed there.
pub proof fn lemma_joined_fails(
    joins: Seq<Join>,
    k: nat,
    m: nat,
    root: TableView,
    database: DatabaseView,
)
    requires
        joined(joins, k, root, database) is Err,
        1 <= k <= m <= joins.len(),
    ensures
        joined(joins, m, root, database) == joined(joins, k, root, database),
    decreases m,
{
    if m > k {
        lemma_joined_fails(joins, k, (m - 1) as nat, root, database);
    }
}

/// Whether a column is among those that `*`, or `scope.*` with the given scope,
/// stands for.
pub fn in_star_scope(column: &TableColumn, scope: &Option<Vec<char>>) -> (r: bool)
    ensures
        r == (scope matches Some(s) ==> scope_of(column@.name) == Some(s@)),
{
    match scope {
        None => true,
        Some(s) => {
            let name = chars_of(column.name.as_str());
            match find_last_dot(&name) {
                Some(dot) => {
                    assert(name@.take(dot as int) =~= name@.subrange(0, dot as int));
                    range_eq(&name, 0, dot, s)
                },
                None => false,
            }
        },
    }
}

/// The places of the columns that `*` or `scope.*` stands for, in their order.
pub fn star_columns(columns: &Vec<TableColumn>, identifier: &ColumnIdentifier) -> (places: Vec<
    usize,
>)
    ensures
        places.len() == star_indices(
            columns_view(columns@),
            *identifier,
            columns.len() as nat,
        ).len(),
        forall|p: int|
            0 <= p < places.len() ==> (#[trigger] places[p]) as int == star_indices(
                columns_view(columns@),
                *identifier,
                columns.len() as nat,
            )[p],
{
    let ghost cols = columns_view(columns@);
    let scope = match &identifier.alias {
        Some(a) => Some(chars_of(a.0.as_str())),
        None => None,
    };
    let mut places: Vec<usize> = Vec::new();
    let mut i: usize = 0;
    while i < columns.len()
        invariant
            i <= columns.len(),
            cols == columns_view(columns@),
            match scope {
                Some(s) => Some(s@),
                None => None,
            } == opt_text(identifier.alias),
            places.len() == star_indices(cols, *identifier, i as nat).len(),
            forall|p: int|
                0 <= p < places.len() ==> (#[trigger] places[p]) as int == star_indices(
                    cols,
                    *identifier,
                    i as nat,
                )[p],
        decreases columns.len() - i,
    {
        if in_star_scope(&columns[i], &scope) {
            places.push(i);
        }
        i += 1;
    }
    places
}

/// The identifier of a `*` or `scope.*` expression.
pub fn star_identifier(expr: &Expression) -> (r: Option<&ColumnIdentifier>)
    ensures
        match r {
            Some(i) => star_of(*expr) == Some(*i),
            None => star_of(*expr) == None::<ColumnIdentifier>,
        },
{
    match expr {
        Expression::ColumnIdentifier(i) => match i.name {
            Column::Star => Some(i),
            _ => None,
        },
        _ => None,
    }
}

/// The column that an expression other than `*` gives to the result.
pub fn column_of(expr: &Expression, columns: &Vec<TableColumn>) -> (res: Result<
    TableColumn,
    Error,
>)
    ensures
        match res {
            Ok(c) => scalar_column(*expr, columns_view(columns@)) == Ok::<ColumnView, Error>(c@),
            Err(e) => scalar_column(*expr, columns_view(columns@)) == Err::<ColumnView, Error>(e),
        },
    decreases expr,
{
    match expr {
        Expression::ColumnIdentifier(i) => match Table::get_column_idx(columns, i) {
            Ok(idx) => Ok(columns[idx].clone()),
            Err(e) => Err(e),
        },
        Expression::Literal(l) => Ok(
            TableColumn { name: String::from_str("?column?"), datatype: l.to_value().datatype() },
        ),
        Expression::BinaryOp(b) => column_of(&b.left, columns),
        _ => Err(Error::Evaluation(EvaluationError::Unsupported)),
    }
}

/// The columns that one expression of a select list gives to the result: for `*` or
/// `scope.*` the columns it stands for, in their order, else the one column of the
/// expression.
pub fn evaluate_column(expr: &Expression, columns: &Vec<TableColumn>) -> (res: Result<
    Vec<TableColumn>,
    Error,
>)
    ensures
        match res {
            Ok(cs) => expression_columns(*expr, columns_view(columns@)) == Ok::<
                Seq<ColumnView>,
                Error,
            >(columns_view(cs@)),
            Err(e) => expression_columns(*expr, columns_view(columns@)) == Err::<
                Seq<ColumnView>,
                Error,
            >(e),
        },
{
    match star_identifier(expr) {
        Some(i) => {
            let places = star_columns(columns, i);
            Ok(columns_at(columns, &places, Ghost(*i)))
        },
        None => match column_of(expr, columns) {
            Ok(c) => {
                let cs = vec![c];
                assert(columns_view(cs@) =~= seq![c@]);
                Ok(cs)
            },
            Err(e) => Err(e),
        },
    }
}

/// Copies of the columns at the places that `*` stands for.
fn columns_at(
    columns: &Vec<TableColumn>,
    places: &Vec<usize>,
    Ghost(identifier): Ghost<ColumnIdentifier>,
) -> (res: Vec<TableColumn>)
    requires
        places.len() == star_indices(
            columns_view(columns@),
            identifier,
            columns.len() as nat,
        ).len(),
        forall|p: int|
            0 <= p < places.len() ==> (#[trigger] places[p]) as int == star_indices(
                columns_view(columns@),
                identifier,
                columns.len() as nat,
            )[p],
    ensures
        columns_view(res@) == star_slots(
            columns_view(columns@),
            identifier,
            columns_view(columns@),
            columns.len() as nat,
        ),
{
    let ghost cols = columns_view(columns@);
    proof {
        lemma_star_slots(cols, identifier, cols, cols.len());
    }
    let mut out: Vec<TableColumn> = Vec::new();
    let mut p: usize = 0;
    while p < places.len()
        invariant
            p <= places.len(),
            cols == columns_view(columns@),
            places.len() == star_indices(cols, identifier, cols.len()).len(),
            forall|q: int|
                0 <= q < places.len() ==> (#[trigger] places[q]) as int == star_indices(
                    cols,
                    identifier,
                    cols.len(),
                )[q],
            forall|q: int|
                0 <= q < star_indices(cols, identifier, cols.len()).len() ==> 0
                    <= #[trigger] star_indices(cols, identifier, cols.len())[q] < cols.len(),
            out.len() == p,
            forall|q: int| 0 <= q < p ==> (#[trigger] out[q])@ == cols[places[q] as int],
        decreases places.len() - p,
    {
        assert(0 <= star_indices(cols, identifier, cols.len())[p as int] < cols.len());
        out.push(columns[places[p]].clone());
        p += 1;
    }
    assert(columns_view(out@) =~= star_slots(cols, identifier, cols, cols.len()));
    out
}

/// Whether a plan says how an expression of a select list is projected: for `*` or
/// `scope.*` it holds the places of the columns, for any other expression nothing.
pub open spec fn plan_fits(plan: Option<Vec<usize>>, expr: Expression, columns: Seq<ColumnView>) -> bool {
    match star_of(expr) {
        Some(i) => plan matches Some(places) && places.len() == star_indices(
            columns,
            i,
            columns.len(),
        ).len() && forall|p: int|
            0 <= p < places.len() ==> (#[trigger] places[p]) as int == star_indices(
                columns,
                i,
                columns.len(),
            )[p],
        None => plan is None,
    }
}

/// The values that a select list gives to one row of the result.
pub fn project_row(
    list: &Vec<Expression>,
    plans: &Vec<Option<Vec<usize>>>,
    columns: &Vec<TableColumn>,
    row: &Row,
    database: &Database,
) -> (res: Result<Row, Error>)
    requires
        plans.len() == list.len(),
        forall|q: int|
            0 <= q < list.len() ==> plan_fits(#[trigger] plans[q], list[q], columns_view(columns@)),
        row@.len() == columns.len(),
        database.wf(),
    ensures
        match res {
            Ok(r) => projected_row(
                list@,
                list.len() as nat,
                columns_view(columns@),
                row@,
                database@,
            ) == Ok::<Seq<ValueView>, Error>(r@),
            Err(e) => projected_row(
                list@,
                list.len() as nat,
                columns_view(columns@),
                row@,
                database@,
            ) == Err::<Seq<ValueView>, Error>(e),
        },
    decreases list, 0nat,
{
    let ghost cols = columns_view(columns@);
    let mut values: Vec<Value> = Vec::new();
    let mut k: usize = 0;
    assert(views_of(values@) =~= Seq::<ValueView>::empty());
    #[verifier::loop_isolation(false)]
    while k < list.len()
        invariant
            k <= list.len(),
            projected_row(list@, k as nat, cols, row@, database@) == Ok::<Seq<ValueView>, Error>(
                views_of(values@),
            ),
        decreases list.len() - k,
    {
        let ghost before = views_of(values@);
        assert(plan_fits(plans[k as int], list[k as int], cols));
        match &plans[k] {
            Some(places) => {
                let ghost ident = star_of(list[k as int])->0;
                let mut more = values_at(row, places, Ghost(cols), Ghost(ident));
                values.append(&mut more);
                assert(views_of(values@) =~= before + star_slots(cols, ident, row@, cols.len()));
            },
            None => {
                let value = evaluate(&list[k], Some((columns, row)), Some(database));
                match value {
                    Ok(v) => {
                        values.push(v);
                        assert(views_of(values@) =~= before + seq![v@]);
                    },
                    Err(e) => {
                        proof {
                            lemma_projected_row(
                                list@,
                                cols,
                                row@,
                                k as int,
                                list.len() as nat,
                                database@,
                            );
                        }
                        return Err(e);
                    },
                }
            },
        }
        k += 1;
    }
    Ok(Row(values))
}

/// Copies of the values of a row at the places that `*` stands for.
fn values_at(
    row: &Row,
    places: &Vec<usize>,
    Ghost(columns): Ghost<Seq<ColumnView>>,
    Ghost(identifier): Ghost<ColumnIdentifier>,
) -> (res: Vec<Value>)
    requires
        row@.len() == columns.len(),
        places.len() == star_indices(columns, identifier, columns.len()).len(),
        forall|p: int|
            0 <= p < places.len() ==> (#[trigger] places[p]) as int == star_indices(
                columns,
                identifier,
                columns.len(),
            )[p],
    ensures
        views_of(res@) == star_slots(columns, identifier, row@, columns.len()),
{
    proof {
        lemma_star_slots(columns, identifier, row@, columns.len());
    }
    let mut out: Vec<Value> = Vec::new();
    let mut p: usize = 0;
    while p < places.len()
        invariant
            p <= places.len(),
            row@.len() == columns.len(),
            places.len() == star_indices(columns, identifier, columns.len()).len(),
            forall|q: int|
                0 <= q < places.len() ==> (#[trigger] places[q]) as int == star_indices(
                    columns,
                    identifier,
                    columns.len(),
                )[q],
            forall|q: int|
                0 <= q < star_indices(columns, identifier, columns.len()).len() ==> 0
                    <= #[trigger] star_indices(columns, identifier, columns.len())[q]
                    < columns.len(),
            out.len() == p,
            forall|q: int| 0 <= q < p ==> (#[trigger] out[q])@ == row@[places[q] as int],
        decreases places.len() - p,
    {
        assert(0 <= star_indices(columns, identifier, columns.len())[p as int] < columns.len());
        out.push(row.0[places[p]].clone());
        p += 1;
    }
    assert(views_of(out@) =~= star_slots(columns, identifier, row@, columns.len()));
    out
}

/// The table that reports a number of rows.
pub fn count_result(n: usize) -> (res: Result<Table, Error>)
    ensures
        table_view(res) == count_table(n as nat),
        res matches Ok(t) ==> t@.well_shaped(),
{
    if n > u32::MAX as usize {
        return Err(Error::Evaluation(EvaluationError::Overflow));
    }
    let column = TableColumn { name: String::from_str("count"), datatype: Datatype::Number };
    let row = Row(vec![Value::Number(n as u32)]);
    let table = Table { columns: vec![column], rows: vec![row] };
    assert(table@.columns =~= seq![column@]);
    assert(row@ =~= seq![ValueView::Number(n as u32)]);
    assert(table@.rows =~= seq![row@]);
    Ok(table)
}

/// Projects a working result by the select list of a query.
///
/// A list that begins with `count(*)` gives one column, `count`, and one row with the
/// number of rows. Any other list gives, for each of its expressions in turn, the
/// columns that `*` or `scope.*` stands for, or the one column of the expression; and
/// for each row the values under those columns, or the value of the expression
/// against that row.
pub fn apply_selection(query: &SelectQuery, result: &Table, database: &Database) -> (res: Result<
    Table,
    Error,
>)
    requires
        result@.well_shaped(),
        database.wf(),
    ensures
        table_view(res) == project(query.select_list@, result@, database@),
        res matches Ok(t) ==> t@.well_shaped(),
    decreases query, 0nat,
{
    let list = &query.select_list;
    let ghost cols = result@.columns;
    if list.len() > 0 {
        match &list[0] {
            Expression::CountStar => {
                return count_result(result.rows.len());
            },
            _ => {},
        }
    }
    let mut columns: Vec<TableColumn> = Vec::new();
    let mut plans: Vec<Option<Vec<usize>>> = Vec::new();
    let mut k: usize = 0;
    assert(columns_view(columns@) =~= Seq::<ColumnView>::empty());
    while k < list.len()
        invariant
            k <= list.len(),
            cols == columns_view(result.columns@),
            cols == result@.columns,
            list@ == query.select_list@,
            !(list@.len() > 0 && list@[0] is CountStar),
            projected_columns(list@, k as nat, cols) == Ok::<Seq<ColumnView>, Error>(
                columns_view(columns@),
            ),
            plans.len() == k,
            forall|q: int| 0 <= q < k ==> plan_fits(#[trigger] plans[q], list[q], cols),
        decreases list.len() - k,
    {
        let ghost before = columns_view(columns@);
        match star_identifier(&list[k]) {
            Some(i) => {
                let places = star_columns(&result.columns, i);
                let mut more = columns_at(&result.columns, &places, Ghost(*i));
                let ghost added = columns_view(more@);
                columns.append(&mut more);
                assert(columns_view(columns@) =~= before + added);
                plans.push(Some(places));
            },
            None => match column_of(&list[k], &result.columns) {
                Ok(c) => {
                    columns.push(c);
                    assert(columns_view(columns@) =~= before + seq![c@]);
                    plans.push(None);
                },
                Err(e) => {
                    proof {
                        lemma_projected_columns(list@, cols, k as int, list.len() as nat);
                    }
                    return Err(e);
                },
            },
        }
        k += 1;
    }
    let mut rows: Vec<Row> = Vec::new();
    let mut m: usize = 0;
    assert(rows_view(rows@) =~= Seq::<Seq<ValueView>>::empty());
    #[verifier::loop_isolation(false)]
    while m < result.rows.len()
        invariant
            m <= result.rows.len(),
            projected_rows(list@, cols, result@.rows, m as nat, database@) == Ok::<
                Seq<Seq<ValueView>>,
                Error,
            >(rows_view(rows@)),
            rows_have_width(rows_view(rows@), columns.len() as nat),
        decreases result.rows.len() - m,
    {
        let ghost before = rows_view(rows@);
        assert(result@.rows[m as int] == result.rows[m as int]@);
        match project_row(list, &plans, &result.columns, &result.rows[m], database) {
            Ok(row) => {
                proof {
                    lemma_projection_shape(
                        list@,
                        list.len() as nat,
                        cols,
                        result.rows[m as int]@,
                        database@,
                    );
                }
                rows.push(row);
                assert(rows_view(rows@) =~= before.push(row@));
            },
            Err(e) => {
                proof {
                    lemma_projected_rows(
                        list@,
                        cols,
                        result@.rows,
                        m as int,
                        result.rows.len() as nat,
                        database@,
                    );
                }
                return Err(e);
            },
        }
        m += 1;
    }
    Ok(Table { columns: columns, rows: rows })
}

impl Database {
    /// A copy of a table of this database as a query sees it: with each column name
    /// stamped with the scope of the table in the query.
    pub fn source(&self, table: &TableIdentifier) -> (res: Result<Table, Error>)
        requires
            self.wf(),
        ensures
            table_view(res) == source_table(self@, *table),
            res matches Ok(t) ==> t@.well_shaped(),
    {
        match self.find_table(table.name.0.as_str()) {
            None => Err(Error::UnknownTable),
            Some(t) => {
                let ghost i = lookup(self@, table.name.0@)->0;
                assert(t@ == self@[i].1);
                let mut copy = t.clone();
                let prefix = String::from_str(table.as_str()).concat(".");
                proof {
                    reveal_strlit(".");
                    assert(prefix@ =~= scope_name(*table) + seq!['.']);
                }
                copy.prefix_column_names(prefix.as_str());
                assert(copy@.columns =~= stamp_columns(self@[i].1.columns, scope_name(*table)));
                assert(copy@.rows == t@.rows);
                Ok(copy)
            },
        }
    }

    /// The tables of a select query joined: the root table with each joined table in
    /// turn.
    pub fn queried_tables(&self, query: &SelectQuery) -> (res: Result<Table, Error>)
        requires
            self.wf(),
        ensures
            table_view(res) == queried(*query, self@),
            res matches Ok(t) ==> t@.well_shaped(),
        decreases query, 0nat,
    {
        let mut result = match self.source(&query.table.root_table) {
            Err(e) => {
                return Err(e);
            },
            Ok(t) => t,
        };
        let ghost root = result@;
        let ghost joins = query.table.joins@;
        let mut n: usize = 0;
        #[verifier::loop_isolation(false)]
        while n < query.table.joins.len()
            invariant
                n <= query.table.joins.len(),
                joined(joins, n as nat, root, self@) == Ok::<TableView, Error>(result@),
                result@.well_shaped(),
            decreases query.table.joins.len() - n,
        {
            let join = &query.table.joins[n];
            match self.source(&join.table) {
                Err(e) => {
                    proof {
                        lemma_joined_fails(joins, (n + 1) as nat, joins.len(), root, self@);
                    }
                    return Err(e);
                },
                Ok(table) => match result.join(table, &join.condition, join.kind, self) {
                    Err(e) => {
                        proof {
                            lemma_joined_fails(joins, (n + 1) as nat, joins.len(), root, self@);
                        }
                        return Err(e);
                    },
                    Ok(_) => {},
                },
            }
            n += 1;
        }
        Ok(result)
    }

    /// Filters, then sorts, then limits a table, as a select query asks. Where one of
    /// the three fails, the table keeps what the steps before it made of it.
    pub fn apply_query_transformations(&self, query: &SelectQuery, result: &mut Table) -> (res:
        Result<(), Error>)
        requires
            self.wf(),
            old(result)@.well_shaped(),
        ensures
            match res {
                Ok(_) => transformed(*query, old(result)@, self@) == Ok::<TableView, Error>(
                    final(result)@,
                ),
                Err(e) => transformed(*query, old(result)@, self@) == Err::<TableView, Error>(e),
            },
            final(result)@ == transformed_so_far(*query, old(result)@, self@),
            final(result)@.well_shaped(),
        decreases query, 0nat,
    {
        match &query.filter {
            Some(filter) => match result.filter(filter, self) {
                Err(e) => {
                    return Err(e);
                },
                Ok(_) => {},
            },
            None => {},
        }
        match &query.sort {
            Some(sort) => match result.sort(sort, self) {
                Err(e) => {
                    return Err(e);
                },
                Ok(_) => {},
            },
            None => {},
        }
        match &query.limit {
            Some(limit) => match evaluate(limit, None, Some(self)) {
                Ok(Value::Number(n)) => {
                    result.limit(n as usize);
                },
                Ok(_) => {
                    return Err(Error::Evaluation(EvaluationError::NonNumber));
                },
                Err(e) => {
                    return Err(e);
                },
            },
            None => {},
        }
        Ok(())
    }

    /// Runs a select query: joins its tables, filters, sorts and limits the rows, and
    /// projects them by the select list. The database is not changed.
    pub fn execute_select(&self, query: &SelectQuery) -> (res: Result<Table, Error>)
        requires
            self.wf(),
        ensures
            table_view(res) == select_result(*query, self@),
            res matches Ok(t) ==> t@.well_shaped(),
        decreases query, 2nat,
    {
        let mut result = match self.queried_tables(query) {
            Err(e) => {
                return Err(e);
            },
            Ok(t) => t,
        };
        match self.apply_query_transformations(query, &mut result) {
            Err(e) => {
                return Err(e);
            },
            Ok(_) => {},
        }
        apply_selection(query, &result, self)
    }
}

/// Each row of a projection has one value for each of its columns.
pub proof fn lemma_projection_shape(
    list: Seq<Expression>,
    n: nat,
    columns: Seq<ColumnView>,
    row: Seq<ValueView>,
    database: DatabaseView,
)
    requires
        n <= list.len(),
        projected_columns(list, n, columns) is Ok,
        projected_row(list, n, columns, row, database) is Ok,
    ensures
        projected_row(list, n, columns, row, database)->Ok_0.len() == projected_columns(
            list,
            n,
            columns,
        )->Ok_0.len(),
    decreases n,
{
    if n > 0 {
        let expr = list[n - 1];
        assert(projected_columns(list, (n - 1) as nat, columns) is Ok);
        assert(projected_row(list, (n - 1) as nat, columns, row, database) is Ok);
        lemma_projection_shape(list, (n - 1) as nat, columns, row, database);
        let cs = expression_columns(expr, columns);
        let vs = expression_values(expr, columns, row, database);
        assert(cs is Ok && vs is Ok);
        assert(cs->Ok_0.len() == vs->Ok_0.len()) by {
            match star_of(expr) {
                Some(i) => {
                    lemma_star_slots(columns, i, columns, columns.len());
                    lemma_star_slots(columns, i, row, columns.len());
                },
                None => {
                    assert(cs->Ok_0 == seq![scalar_column(expr, columns)->Ok_0]);
                    assert(vs->Ok_0 == seq![
                        eval(expr, Some((columns, row)), Some(database))->Ok_0,
                    ]);
                },
            }
        }
    }
}

/// A projection fails on the first row on which its select list fails.
pub proof fn lemma_projected_rows(
    list: Seq<Expression>,
    columns: Seq<ColumnView>,
    rows: Seq<Seq<ValueView>>,
    i: int,
    m: nat,
    database: DatabaseView,
)
    requires
        0 <= i,
        projected_rows(list, columns, rows, i as nat, database) is Ok,
        projected_row(list, list.len(), columns, rows[i], database) is Err,
    ensures
        m > i ==> projected_rows(list, columns, rows, m, database) == Err::<
            Seq<Seq<ValueView>>,
            Error,
        >(projected_row(list, list.len(), columns, rows[i], database)->Err_0),
    decreases m,
{
    if m > i + 1 {
        lemma_projected_rows(list, columns, rows, i, (m - 1) as nat, database);
    }
}

/// The values of a row fail on the first expression of the select list that fails.
pub proof fn lemma_projected_row(
    list: Seq<Expression>,
    columns: Seq<ColumnView>,
    row: Seq<ValueView>,
    k: int,
    n: nat,
    database: DatabaseView,
)
    requires
        0 <= k,
        n <= list.len(),
        projected_row(list, k as nat, columns, row, database) is Ok,
        expression_values(list[k], columns, row, database) is Err,
    ensures
        n > k ==> projected_row(list, n, columns, row, database) == Err::<Seq<ValueView>, Error>(
            expression_values(list[k], columns, row, database)->Err_0,
        ),
    decreases n,
{
    if n > k + 1 {
        lemma_projected_row(list, columns, row, k, (n - 1) as nat, database);
    }
}

/// The columns of a projection fail on the first expression of the select list that
/// fails.
pub proof fn lemma_projected_columns(
    list: Seq<Expression>,
    columns: Seq<ColumnView>,
    k: int,
    n: nat,
)
    requires
        0 <= k,
        projected_columns(list, k as nat, columns) is Ok,
        expression_columns(list[k], columns) is Err,
    ensures
        n > k ==> projected_columns(list, n, columns) == Err::<Seq<ColumnView>, Error>(
            expression_columns(list[k], columns)->Err_0,
        ),
    decreases n,
{
    if n > k + 1 {
        lemma_projected_columns(list, columns, k, (n - 1) as nat);
    }
}

} // verus!
