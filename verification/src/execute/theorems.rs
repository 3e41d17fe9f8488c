//! What holds of the operations of queries, and of queries together: of limits, sorts
//! and joins, of an insert and the select that follows it, and of a select with `*`
//! and the same select with `count(*)`.

use crate::data::column::ColumnView;
use crate::data::database::database_wf;
use crate::data::database::is_first_named;
use crate::data::database::lookup;
use crate::data::database::DatabaseView;
use crate::data::table::column_place;
use crate::data::table::insert_places;
use crate::data::table::is_first_column;
use crate::data::table::TableView;
use crate::data::value::ValueView;
use crate::data::table::lemma_resolve;
use crate::execute::evaluate::eval;
use crate::execute::evaluate::eval_rows;
use crate::execute::select::ordered;
use crate::parse::ast::OrderBy;
use crate::execute::evaluate::is_candidate;
use crate::execute::evaluate::resolve;
use crate::execute::evaluate::verdict;
use crate::execute::relation::candidate;
use crate::execute::select::row_verdicts;
use crate::execute::insert::identifier_texts;
use crate::execute::relation::begins_a_row;
use crate::execute::relation::collect_first;
use crate::execute::relation::in_order;
use crate::execute::relation::lemma_collect_first;
use crate::execute::relation::lemma_sorted_order;
use crate::execute::relation::limited;
use crate::execute::relation::sort_by;
use crate::execute::relation::sorted_order;
use crate::parse::ast::OrderByDirection;
use crate::execute::relation::lemma_inner_join_product;
use crate::execute::relation::lemma_left_join_keeps_left;
use crate::execute::relation::lemma_right_join_mirrors_left;
use crate::execute::relation::pair_at;
use crate::execute::relation::rotated;
use crate::execute::select::join_tables;
use crate::execute::select::join_verdicts;
use crate::parse::ast::JoinKind;
use crate::parse::ast::Literal;
use crate::execute::insert::insert_result;
use crate::execute::insert::inserted_row;
use crate::execute::insert::literal_values;
use crate::execute::insert::placed;
use crate::execute::select::count_table;
use crate::execute::select::expression_columns;
use crate::execute::select::expression_values;
use crate::execute::select::projected_columns;
use crate::execute::select::projected_row;
use crate::execute::select::projected_rows;
use crate::execute::select::queried;
use crate::execute::select::scope_name;
use crate::execute::select::select_result;
use crate::execute::select::source_table;
use crate::execute::select::stamp_columns;
use crate::execute::select::star_of;
use crate::execute::select::star_slots;
use crate::execute::select::transformed;
use crate::execute::select::working;
use crate::execute::select::Error;
use crate::execute::update::lemma_placed;
use crate::parse::ast::ColumnIdentifier;
use crate::parse::ast::Expression;
use crate::parse::ast::InsertQuery;
use crate::parse::ast::SelectQuery;
use vstd::prelude::*;

verus! {

/// Whether an expression is `*` without a scope.
pub open spec fn is_plain_star(expr: Expression) -> bool {
    star_of(expr) matches Some(i) && i.alias is None
}

/// Whether a query is `select * from table`: one table, no join, no condition, no
/// sort and no limit.
pub open spec fn is_select_all(query: SelectQuery, table: Seq<char>) -> bool {
    &&& query.select_list@.len() == 1
    &&& is_plain_star(query.select_list@[0])
    &&& query.table.root_table.name.0@ == table
    &&& query.table.joins@.len() == 0
    &&& query.filter is None
    &&& query.sort is None
    &&& query.limit is None
}

/// `*` without a scope selects every item.
pub proof fn lemma_plain_star_slots<T>(
    columns: Seq<ColumnView>,
    identifier: ColumnIdentifier,
    items: Seq<T>,
    n: nat,
)
    requires
        identifier.alias is None,
        n <= items.len(),
    ensures
        star_slots(columns, identifier, items, n) == items.take(n as int),
    decreases n,
{
    if n > 0 {
        lemma_plain_star_slots(columns, identifier, items, (n - 1) as nat);
        assert(items.take(n - 1).push(items[n - 1]) =~= items.take(n as int));
    } else {
        assert(items.take(0) =~= Seq::<T>::empty());
    }
}

/// Projecting rows by `*` alone gives the rows.
pub proof fn lemma_project_all_rows(
    list: Seq<Expression>,
    columns: Seq<ColumnView>,
    rows: Seq<Seq<ValueView>>,
    m: nat,
    database: DatabaseView,
)
    requires
        list.len() == 1,
        is_plain_star(list[0]),
        m <= rows.len(),
        forall|i: int| 0 <= i < rows.len() ==> (#[trigger] rows[i]).len() == columns.len(),
    ensures
        projected_rows(list, columns, rows, m, database) == Ok::<Seq<Seq<ValueView>>, Error>(
            rows.take(m as int),
        ),
    decreases m,
{
    if m > 0 {
        lemma_project_all_rows(list, columns, rows, (m - 1) as nat, database);
        let row = rows[m - 1];
        let i = star_of(list[0])->0;
        lemma_plain_star_slots(columns, i, row, columns.len());
        assert(row.take(columns.len() as int) =~= row);
        assert(projected_row(list, 0, columns, row, database) == Ok::<Seq<ValueView>, Error>(
            Seq::empty(),
        ));
        assert(expression_values(list[0], columns, row, database) == Ok::<Seq<ValueView>, Error>(
            row,
        ));
        assert(Seq::<ValueView>::empty() + row =~= row);
        assert(projected_row(list, 1, columns, row, database) == Ok::<Seq<ValueView>, Error>(row));
        assert(rows.take(m - 1).push(row) =~= rows.take(m as int));
    } else {
        assert(rows.take(0) =~= Seq::<Seq<ValueView>>::empty());
    }
}

/// `select * from T` gives the rows of T in the order in which they were inserted,
/// under the columns of T.
pub proof fn theorem_select_all(query: SelectQuery, database: DatabaseView, t: int)
    requires
        database_wf(database),
        lookup(database, query.table.root_table.name.0@) == Some(t),
        is_select_all(query, query.table.root_table.name.0@),
    ensures
        select_result(query, database) == Ok::<TableView, Error>(
            TableView {
                columns: stamp_columns(database[t].1.columns, scope_name(query.table.root_table)),
                rows: database[t].1.rows,
            },
        ),
{
    let list = query.select_list@;
    let root = source_table(database, query.table.root_table)->Ok_0;
    assert(is_first_named(database, query.table.root_table.name.0@, t));
    assert(database[t].1.wf());
    assert(queried(query, database) == Ok::<TableView, Error>(root));
    assert(transformed(query, root, database) == Ok::<TableView, Error>(root));
    assert(working(query, database) == Ok::<TableView, Error>(root));
    let i = star_of(list[0])->0;
    lemma_plain_star_slots(root.columns, i, root.columns, root.columns.len());
    assert(root.columns.take(root.columns.len() as int) =~= root.columns);
    assert(projected_columns(list, 0, root.columns) == Ok::<Seq<ColumnView>, Error>(Seq::empty()));
    assert(expression_columns(list[0], root.columns) == Ok::<Seq<ColumnView>, Error>(
        root.columns,
    ));
    assert(Seq::<ColumnView>::empty() + root.columns =~= root.columns);
    assert(projected_columns(list, 1, root.columns) == Ok::<Seq<ColumnView>, Error>(root.columns));
    lemma_project_all_rows(list, root.columns, root.rows, root.rows.len(), database);
    assert(root.rows.take(root.rows.len() as int) =~= root.rows);
}

/// Values put at distinct places are found there.
pub proof fn lemma_placed_at(
    row: Seq<ValueView>,
    places: Seq<int>,
    values: Seq<ValueView>,
    n: nat,
    i: int,
)
    requires
        0 <= i < n,
        n <= values.len(),
        n <= places.len(),
        forall|k: int| 0 <= k < n ==> 0 <= #[trigger] places[k] < row.len(),
        forall|k: int, l: int| 0 <= k < l < n ==> places[k] != places[l],
    ensures
        placed(row, places, values, n)[places[i]] == values[i],
    decreases n,
{
    lemma_placed(row, places, values, (n - 1) as nat);
    if i < n - 1 {
        lemma_placed_at(row, places, values, (n - 1) as nat, i);
    }
}

/// After an insert that names the columns of T in any order, `select * from T` gives
/// the rows that T had, in their order, and behind them one more row, which holds
/// under each named column the value that the insert gave for it.
pub proof fn theorem_insert_then_select(
    insert: InsertQuery,
    query: SelectQuery,
    before: DatabaseView,
    after: DatabaseView,
    t: int,
)
    requires
        database_wf(before),
        insert_result(insert, before) == Ok::<DatabaseView, crate::execute::insert::Error>(after),
        lookup(before, insert.table.0@) == Some(t),
        is_select_all(query, insert.table.0@),
    ensures
        select_result(query, after) is Ok,
        select_result(query, after)->Ok_0.rows.len() == before[t].1.rows.len() + 1,
        forall|r: int|
            0 <= r < before[t].1.rows.len() ==> (#[trigger] select_result(
                query,
                after,
            )->Ok_0.rows[r]) == before[t].1.rows[r],
        select_result(query, after)->Ok_0.rows.last().len() == before[t].1.columns.len(),
        forall|i: int|
            0 <= i < insert.columns@.len() ==> {
                let place = column_place(before[t].1.columns, (#[trigger] insert.columns@[i]).0@);
                &&& place is Some
                &&& before[t].1.columns[place->0].name == insert.columns@[i].0@
                &&& select_result(query, after)->Ok_0.rows.last()[place->0]
                    == crate::execute::evaluate::literal_value(insert.values@[i])
            },
{
    let name = insert.table.0@;
    let table = before[t].1;
    let names = identifier_texts(insert.columns@);
    let places = insert_places(table.columns, names)->0;
    let values = literal_values(insert.values@);
    let row = inserted_row(table.columns, places, values);
    assert(is_first_named(before, name, t));
    assert(table.wf());
    assert(is_first_named(after, name, t)) by {
        assert forall|j: int| 0 <= j < t implies (#[trigger] after[j]).0 != name by {
            assert(after[j] == before[j]);
        }
    }
    assert(lookup(after, name) == Some(t)) by {
        let c = choose|i: int| is_first_named(after, name, i);
        if c < t {
            assert(after[c] == before[c]);
        }
    }
    let blank = Seq::new(table.columns.len(), |i: int| ValueView::Null);
    assert forall|k: int| 0 <= k < places.len() implies 0 <= #[trigger] places[k]
        < blank.len() by {
        assert(column_place(table.columns, names[k]) is Some);
        assert(is_first_column(table.columns, names[k], places[k]));
    }
    assert forall|k: int, l: int| 0 <= k < l < places.len() implies places[k] != places[l] by {
        assert(column_place(table.columns, names[k]) is Some);
        assert(column_place(table.columns, names[l]) is Some);
        assert(is_first_column(table.columns, names[k], places[k]));
        assert(is_first_column(table.columns, names[l], places[l]));
    }
    lemma_placed(blank, places, values, values.len());
    assert(database_wf(after)) by {
        assert forall|i: int, j: int| 0 <= i < j < after.len() implies (#[trigger] after[i]).0 != (
        #[trigger] after[j]).0 by {
            assert(after[i].0 == before[i].0 && after[j].0 == before[j].0);
        }
        assert forall|i: int| 0 <= i < after.len() implies (#[trigger] after[i]).1.wf() by {
            if i == t {
                let a = after[t].1;
                assert forall|r: int| 0 <= r < a.rows.len() implies (#[trigger] a.rows[r]).len()
                    == a.columns.len() by {
                    if r < table.rows.len() {
                        assert(a.rows[r] == table.rows[r]);
                    }
                }
                assert forall|r: int, c: int|
                    0 <= r < a.rows.len() && 0 <= c < a.columns.len() && c
                        < a.rows[r].len() implies crate::data::value::assignable(
                    #[trigger] a.rows[r][c],
                    a.columns[c].datatype,
                ) by {
                    if r < table.rows.len() {
                        assert(a.rows[r] == table.rows[r]);
                        assert(crate::data::value::assignable(
                            table.rows[r][c],
                            table.columns[c].datatype,
                        ));
                    } else {
                        assert(a.rows[r] == row);
                        if row[c] != blank[c] {
                            let k = choose|k: int|
                                0 <= k < values.len() && places[k] == c && row[c] == values[k];
                            assert(crate::data::value::assignable(
                                values[k],
                                table.columns[places[k]].datatype,
                            ));
                        }
                    }
                }
            } else {
                assert(after[i] == before[i]);
                assert(before[i].1.wf());
            }
        }
    }
    theorem_select_all(query, after, t);
    assert forall|i: int| 0 <= i < insert.columns@.len() implies {
        let place = column_place(table.columns, (#[trigger] insert.columns@[i]).0@);
        &&& place is Some
        &&& table.columns[place->0].name == insert.columns@[i].0@
        &&& row[place->0] == crate::execute::evaluate::literal_value(insert.values@[i])
    } by {
        assert(names[i] == insert.columns@[i].0@);
        assert(column_place(table.columns, names[i]) is Some);
        assert(is_first_column(table.columns, names[i], places[i]));
        lemma_placed_at(blank, places, values, values.len(), i);
    }
}

/// A select with `count(*)` reports the number of rows that the same select with `*`
/// returns: with the same tables and joins, the same condition, sort and limit. Where
/// the one fails, the other fails in the same way.
pub proof fn theorem_count_matches(all: SelectQuery, count: SelectQuery, database: DatabaseView)
    requires
        all.select_list@.len() == 1,
        is_plain_star(all.select_list@[0]),
        count.select_list@.len() >= 1,
        count.select_list@[0] is CountStar,
        all.table == count.table,
        all.filter == count.filter,
        all.sort == count.sort,
        all.limit == count.limit,
    ensures
        match select_result(all, database) {
            Ok(t) => select_result(count, database) == count_table(t.rows.len()),
            Err(e) => select_result(count, database) == Err::<TableView, Error>(e),
        },
{
    assert(queried(all, database) == queried(count, database));
    match queried(all, database) {
        Ok(t) => {
            assert(transformed(all, t, database) == transformed(count, t, database));
        },
        Err(_) => {},
    }
    assert(working(all, database) == working(count, database));
    match working(all, database) {
        Ok(w) => {
            let list = all.select_list@;
            assert(projected_columns(list, 0, w.columns) is Ok);
            assert(expression_columns(list[0], w.columns) is Ok);
            assert(projected_columns(list, 1, w.columns) is Ok);
            lemma_star_rows(list, w.columns, w.rows, w.rows.len(), database);
        },
        Err(_) => {},
    }
}

/// Projecting rows by `*` alone gives as many rows.
pub proof fn lemma_star_rows(
    list: Seq<Expression>,
    columns: Seq<ColumnView>,
    rows: Seq<Seq<ValueView>>,
    m: nat,
    database: DatabaseView,
)
    requires
        list.len() == 1,
        is_plain_star(list[0]),
    ensures
        projected_rows(list, columns, rows, m, database) is Ok,
        projected_rows(list, columns, rows, m, database)->Ok_0.len() == m,
    decreases m,
{
    if m > 0 {
        lemma_star_rows(list, columns, rows, (m - 1) as nat, database);
        let row = rows[m - 1];
        assert(projected_row(list, 0, columns, row, database) is Ok);
        assert(expression_values(list[0], columns, row, database) is Ok);
        assert(projected_row(list, 1, columns, row, database) is Ok);
    }
}

/// The condition `true` holds of every row.
pub proof fn lemma_true_holds(
    row: Option<crate::execute::evaluate::RowContextView>,
    database: Option<DatabaseView>,
)
    ensures
        crate::execute::evaluate::verdict(
            eval(Expression::Literal(Literal::Boolean(true)), row, database),
        ) == Ok::<bool, Error>(true),
{
    reveal(eval);
}

/// The condition `true` gives the verdict `true` on every pair of rows of a join.
pub proof fn lemma_verdicts_of_true(
    columns: Seq<ColumnView>,
    outer: Seq<Seq<ValueView>>,
    inner: Seq<Seq<ValueView>>,
    database: DatabaseView,
)
    ensures
        join_verdicts(
            JoinKind::Inner,
            Expression::Literal(Literal::Boolean(true)),
            columns,
            outer,
            inner,
            database,
        ).len() == outer.len(),
        forall|i: int|
            0 <= i < outer.len() ==> (#[trigger] join_verdicts(
                JoinKind::Inner,
                Expression::Literal(Literal::Boolean(true)),
                columns,
                outer,
                inner,
                database,
            )[i]).len() == inner.len(),
        forall|i: int, j: int|
            0 <= i < outer.len() && 0 <= j < inner.len() ==> (#[trigger] join_verdicts(
                JoinKind::Inner,
                Expression::Literal(Literal::Boolean(true)),
                columns,
                outer,
                inner,
                database,
            )[i][j]) == Ok::<bool, Error>(true),
{
    let condition = Expression::Literal(Literal::Boolean(true));
    let vs = join_verdicts(JoinKind::Inner, condition, columns, outer, inner, database);
    assert forall|i: int, j: int| 0 <= i < outer.len() && 0 <= j < inner.len() implies (
    #[trigger] vs[i][j]) == Ok::<bool, Error>(true) by {
        let row = crate::execute::relation::candidate(JoinKind::Inner, outer[i], inner[j]);
        lemma_true_holds(Some((columns, row)), Some(database));
    }
}

/// An inner join on the condition `true` is the Cartesian product: its columns are
/// those of both tables, and its rows pair each row of the left table in turn with
/// each row of the right table in turn.
pub proof fn theorem_inner_join_on_true(left: TableView, right: TableView, database: DatabaseView)
    ensures
        join_tables(
            left,
            right,
            Expression::Literal(Literal::Boolean(true)),
            JoinKind::Inner,
            database,
        ) is Ok,
        join_tables(
            left,
            right,
            Expression::Literal(Literal::Boolean(true)),
            JoinKind::Inner,
            database,
        )->Ok_0.columns == left.columns + right.columns,
        join_tables(
            left,
            right,
            Expression::Literal(Literal::Boolean(true)),
            JoinKind::Inner,
            database,
        )->Ok_0.rows.len() == left.rows.len() * right.rows.len(),
        forall|i: int, j: int|
            0 <= i < left.rows.len() && 0 <= j < right.rows.len() ==> #[trigger] pair_at(
                join_tables(
                    left,
                    right,
                    Expression::Literal(Literal::Boolean(true)),
                    JoinKind::Inner,
                    database,
                )->Ok_0.rows,
                right.rows.len(),
                i,
                j,
            ) == left.rows[i] + right.rows[j],
{
    let condition = Expression::Literal(Literal::Boolean(true));
    let columns = left.columns + right.columns;
    let vs = join_verdicts(JoinKind::Inner, condition, columns, left.rows, right.rows, database);
    lemma_verdicts_of_true(columns, left.rows, right.rows, database);
    lemma_inner_join_product(
        left.rows,
        right.rows,
        vs,
        left.columns.len(),
        right.columns.len(),
        left.rows.len(),
    );
}

/// A left join, on any condition, holds every row of the left table at least once:
/// each of them is the beginning of a row of the result, followed by the values of a
/// matching row of the right table or by nulls.
pub proof fn theorem_left_join_keeps_left_rows(
    left: TableView,
    right: TableView,
    condition: Expression,
    database: DatabaseView,
)
    requires
        join_tables(left, right, condition, JoinKind::Left, database) is Ok,
    ensures
        forall|i: int|
            0 <= i < left.rows.len() ==> begins_a_row(
                join_tables(left, right, condition, JoinKind::Left, database)->Ok_0.rows,
                #[trigger] left.rows[i],
            ),
{
    let columns = left.columns + right.columns;
    let vs = join_verdicts(JoinKind::Left, condition, columns, left.rows, right.rows, database);
    lemma_left_join_keeps_left(
        left.rows,
        right.rows,
        vs,
        left.columns.len(),
        right.columns.len(),
        left.rows.len(),
    );
}

/// The place in `right + left` of what stands at place `i` in `left + right`.
pub open spec fn exchanged(i: int, left_width: nat, right_width: nat) -> int {
    if i < left_width {
        i + right_width
    } else {
        i - left_width
    }
}

/// A column reference resolves alike against the columns of two tables in either
/// order: to the same column, or to the same error.
pub proof fn lemma_resolve_exchanged(
    left: Seq<ColumnView>,
    right: Seq<ColumnView>,
    identifier: ColumnIdentifier,
)
    ensures
        match (resolve(left + right, identifier), resolve(right + left, identifier)) {
            (Ok(a), Ok(b)) => 0 <= a < left.len() + right.len() && b == exchanged(
                a,
                left.len(),
                right.len(),
            ),
            (Err(e1), Err(e2)) => e1 == e2,
            _ => false,
        },
{
    let ab = left + right;
    let ba = right + left;
    let lw = left.len();
    let rw = right.len();
    assert forall|i: int| 0 <= i < ab.len() implies #[trigger] ab[i] == ba[exchanged(i, lw, rw)]
        && 0 <= exchanged(i, lw, rw) < ba.len() by {}
    assert forall|k: int| 0 <= k < ba.len() implies #[trigger] ba[k] == ab[exchanged(k, rw, lw)]
        && 0 <= exchanged(k, rw, lw) < ab.len() by {}
    lemma_resolve(ab, identifier);
    lemma_resolve(ba, identifier);
    reveal(resolve);
    if identifier.name is Star {
    } else if forall|i: int| 0 <= i < ab.len() ==> !is_candidate(#[trigger] ab[i], identifier) {
        assert forall|k: int| 0 <= k < ba.len() implies !is_candidate(
            #[trigger] ba[k],
            identifier,
        ) by {
            assert(ba[k] == ab[exchanged(k, rw, lw)]);
        }
    } else {
        let i = choose|i: int| 0 <= i < ab.len() && is_candidate(#[trigger] ab[i], identifier);
        let k = exchanged(i, lw, rw);
        assert(is_candidate(ba[k], identifier));
        if exists|i: int, j: int|
            0 <= i < j < ab.len() && is_candidate(#[trigger] ab[i], identifier) && is_candidate(
                #[trigger] ab[j],
                identifier,
            ) {
            let (i1, j1) = choose|i: int, j: int|
                0 <= i < j < ab.len() && is_candidate(#[trigger] ab[i], identifier)
                    && is_candidate(#[trigger] ab[j], identifier);
            let k1 = exchanged(i1, lw, rw);
            let k2 = exchanged(j1, lw, rw);
            assert(is_candidate(ba[k1], identifier) && is_candidate(ba[k2], identifier));
            if k1 < k2 {
                assert(0 <= k1 < k2 < ba.len());
            } else {
                assert(0 <= k2 < k1 < ba.len());
            }
        } else {
            if exists|i: int, j: int|
                0 <= i < j < ba.len() && is_candidate(#[trigger] ba[i], identifier)
                    && is_candidate(#[trigger] ba[j], identifier) {
                let (k1, k2) = choose|i: int, j: int|
                    0 <= i < j < ba.len() && is_candidate(#[trigger] ba[i], identifier)
                        && is_candidate(#[trigger] ba[j], identifier);
                let i1 = exchanged(k1, rw, lw);
                let i2 = exchanged(k2, rw, lw);
                assert(is_candidate(ab[i1], identifier) && is_candidate(ab[i2], identifier));
                if i1 < i2 {
                    assert(0 <= i1 < i2 < ab.len());
                } else {
                    assert(0 <= i2 < i1 < ab.len());
                }
            }
            let a = resolve(ab, identifier)->Ok_0;
            assert(is_candidate(ba[exchanged(a, lw, rw)], identifier));
        }
    }
}

/// An expression has the same value against a pair of rows of two tables in
/// whichever order the two tables stand.
pub proof fn lemma_eval_exchanged(
    expr: Expression,
    left: Seq<ColumnView>,
    right: Seq<ColumnView>,
    l: Seq<ValueView>,
    r: Seq<ValueView>,
    database: Option<DatabaseView>,
)
    requires
        l.len() == left.len(),
        r.len() == right.len(),
    ensures
        eval(expr, Some((left + right, l + r)), database) == eval(
            expr,
            Some((right + left, r + l)),
            database,
        ),
    decreases expr,
{
    reveal(eval);
    match expr {
        Expression::ColumnIdentifier(i) => {
            lemma_resolve_exchanged(left, right, i);
        },
        Expression::BinaryOp(b) => {
            lemma_eval_exchanged(*b.left, left, right, l, r, database);
            lemma_eval_exchanged(*b.right, left, right, l, r, database);
        },
        _ => {},
    }
}

/// The verdict of a join condition on a pair of rows is the same whether the two rows
/// are put together for a right join of L with R or for a left join of R with L.
pub proof fn lemma_verdict_exchanged(
    left: Seq<ColumnView>,
    right: Seq<ColumnView>,
    outer: Seq<ValueView>,
    inner: Seq<ValueView>,
    condition: Expression,
    database: DatabaseView,
)
    requires
        inner.len() == left.len(),
        outer.len() == right.len(),
    ensures
        verdict(
            eval(
                condition,
                Some((left + right, candidate(JoinKind::Right, outer, inner))),
                Some(database),
            ),
        ) == verdict(
            eval(
                condition,
                Some((right + left, candidate(JoinKind::Left, outer, inner))),
                Some(database),
            ),
        ),
{
    lemma_eval_exchanged(condition, left, right, inner, outer, Some(database));
}

/// The verdict of a join condition on the candidate row of an outer row and the inner
/// row at a place is the verdict at that place among its verdicts for the outer row.
pub proof fn lemma_row_verdicts_at(
    kind: JoinKind,
    condition: Expression,
    columns: Seq<ColumnView>,
    outer: Seq<ValueView>,
    inner: Seq<Seq<ValueView>>,
    database: DatabaseView,
    j: int,
)
    requires
        0 <= j < inner.len(),
    ensures
        row_verdicts(kind, condition, columns, outer, inner, database)[j] == verdict(
            eval(condition, Some((columns, candidate(kind, outer, inner[j]))), Some(database)),
        ),
{
    reveal(eval);
}

/// A join condition gives the same verdicts, pair for pair, whether the rows of a pair
/// are put together for a right join of L with R or for a left join of R with L.
pub proof fn lemma_row_verdicts_exchanged(
    left: Seq<ColumnView>,
    right: Seq<ColumnView>,
    outer: Seq<ValueView>,
    inner: Seq<Seq<ValueView>>,
    condition: Expression,
    database: DatabaseView,
)
    requires
        forall|j: int| 0 <= j < inner.len() ==> (#[trigger] inner[j]).len() == left.len(),
        outer.len() == right.len(),
    ensures
        row_verdicts(JoinKind::Right, condition, left + right, outer, inner, database)
            == row_verdicts(JoinKind::Left, condition, right + left, outer, inner, database),
{
    let a = row_verdicts(JoinKind::Right, condition, left + right, outer, inner, database);
    let b = row_verdicts(JoinKind::Left, condition, right + left, outer, inner, database);
    assert(a.len() == b.len());
    assert forall|j: int| 0 <= j < a.len() implies #[trigger] a[j] == b[j] by {
        let row = inner[j];
        assert(row.len() == left.len());
        lemma_verdict_exchanged(left, right, outer, row, condition, database);
        lemma_row_verdicts_at(JoinKind::Right, condition, left + right, outer, inner, database, j);
        lemma_row_verdicts_at(JoinKind::Left, condition, right + left, outer, inner, database, j);
    }
    assert(a =~= b);
}

/// The verdicts of a join condition are the same for a right join of L with R and for
/// a left join of R with L.
pub proof fn lemma_join_verdicts_exchanged(
    left: Seq<ColumnView>,
    right: Seq<ColumnView>,
    outer: Seq<Seq<ValueView>>,
    inner: Seq<Seq<ValueView>>,
    condition: Expression,
    database: DatabaseView,
)
    requires
        forall|j: int| 0 <= j < inner.len() ==> (#[trigger] inner[j]).len() == left.len(),
        forall|i: int| 0 <= i < outer.len() ==> (#[trigger] outer[i]).len() == right.len(),
    ensures
        join_verdicts(JoinKind::Right, condition, left + right, outer, inner, database)
            == join_verdicts(JoinKind::Left, condition, right + left, outer, inner, database),
{
    let a = join_verdicts(JoinKind::Right, condition, left + right, outer, inner, database);
    let b = join_verdicts(JoinKind::Left, condition, right + left, outer, inner, database);
    assert(a.len() == b.len());
    assert forall|i: int| 0 <= i < a.len() implies #[trigger] a[i] == b[i] by {
        let row = outer[i];
        assert(row.len() == right.len());
        lemma_row_verdicts_exchanged(left, right, row, inner, condition, database);
    }
    assert(a =~= b);
}

/// The right join of L with R on a condition is the mirror image of the left join of
/// R with L on the same condition: the columns of the two tables stand in exchanged
/// order, and so do the values of each row, row for row. Where the one join fails, the
/// other fails in the same way.
pub proof fn theorem_right_join_is_left_join_exchanged(
    l: TableView,
    r: TableView,
    condition: Expression,
    database: DatabaseView,
)
    requires
        l.well_shaped(),
        r.well_shaped(),
    ensures
        match (
            join_tables(l, r, condition, JoinKind::Right, database),
            join_tables(r, l, condition, JoinKind::Left, database),
        ) {
            (Ok(right), Ok(left)) => {
                &&& right.columns == l.columns + r.columns
                &&& left.columns == r.columns + l.columns
                &&& right.rows.len() == left.rows.len()
                &&& forall|k: int|
                    0 <= k < left.rows.len() ==> #[trigger] right.rows[k] == rotated(
                        left.rows[k],
                        r.columns.len(),
                    )
            },
            (Err(e1), Err(e2)) => e1 == e2,
            _ => false,
        },
{
    lemma_join_verdicts_exchanged(l.columns, r.columns, r.rows, l.rows, condition, database);
    let verdicts = join_verdicts(
        JoinKind::Right,
        condition,
        l.columns + r.columns,
        r.rows,
        l.rows,
        database,
    );
    lemma_right_join_mirrors_left(
        r.rows,
        l.rows,
        verdicts,
        l.columns.len(),
        r.columns.len(),
        r.rows.len(),
    );
}

/// A second limit that is no smaller than the first changes nothing.
pub proof fn theorem_limit_twice<T>(rows: Seq<T>, first: nat, second: nat)
    requires
        first <= second,
    ensures
        limited(limited(rows, first), second) == limited(rows, first),
{
    let once = limited(rows, first);
    if second <= once.len() {
        assert(once.take(second as int) =~= once);
    }
}

/// After a sort, each row's key may stand before the key of the row that follows it:
/// for an ascending sort it is no greater, for a descending sort no smaller.
pub proof fn theorem_sort_orders<T, E>(
    rows: Seq<T>,
    keys: Seq<Result<ValueView, E>>,
    key: spec_fn(T) -> ValueView,
    direction: OrderByDirection,
)
    requires
        keys.len() == rows.len(),
        forall|i: int| 0 <= i < rows.len() ==> keys[i] == Ok::<ValueView, E>(key(rows[i])),
    ensures
        sort_by(rows, keys, direction) is Ok,
        sort_by(rows, keys, direction)->Ok_0.len() == rows.len(),
        forall|p: int|
            0 <= p && p + 1 < rows.len() ==> in_order(
                direction,
                key(#[trigger] sort_by(rows, keys, direction)->Ok_0[p]),
                key(sort_by(rows, keys, direction)->Ok_0[p + 1]),
            ),
{
    let n = rows.len();
    lemma_collect_first(keys, n);
    let ks = collect_first(keys, n)->Ok_0;
    lemma_sorted_order(direction, ks, n);
    let order = sorted_order(direction, ks, n);
    let sorted = sort_by(rows, keys, direction)->Ok_0;
    assert forall|p: int| 0 <= p && p + 1 < n implies in_order(
        direction,
        key(#[trigger] sorted[p]),
        key(sorted[p + 1]),
    ) by {
        assert(in_order(direction, ks[order[p]], ks[order[p + 1]]));
        assert(keys[order[p]] == Ok::<ValueView, E>(ks[order[p]]));
        assert(keys[order[p + 1]] == Ok::<ValueView, E>(ks[order[p + 1]]));
    }
}

/// A sort emits the rows it was given: each of them at exactly one place.
pub proof fn theorem_sort_permutes<T, E>(
    rows: Seq<T>,
    keys: Seq<Result<ValueView, E>>,
    direction: OrderByDirection,
)
    requires
        keys.len() == rows.len(),
        sort_by(rows, keys, direction) is Ok,
    ensures
        sort_by(rows, keys, direction)->Ok_0.len() == rows.len(),
        exists|order: Seq<int>|
            {
                &&& order.len() == rows.len()
                &&& forall|p: int| 0 <= p < order.len() ==> 0 <= #[trigger] order[p] < rows.len()
                &&& forall|p: int, q: int| 0 <= p < q < order.len() ==> order[p] != order[q]
                &&& forall|p: int|
                    0 <= p < order.len() ==> #[trigger] sort_by(rows, keys, direction)->Ok_0[p]
                        == rows[order[p]]
            },
{
    let n = rows.len();
    let ks = collect_first(keys, n)->Ok_0;
    lemma_sorted_order(direction, ks, n);
    let order = sorted_order(direction, ks, n);
    assert(order.len() == rows.len());
}

/// The value of an expression against the row at a place is the value at that place
/// among its values against all rows.
pub proof fn lemma_eval_rows_at(
    expr: Expression,
    columns: Seq<ColumnView>,
    rows: Seq<Seq<ValueView>>,
    database: Option<DatabaseView>,
    i: int,
)
    requires
        0 <= i < rows.len(),
    ensures
        eval_rows(expr, columns, rows, database)[i] == eval(
            expr,
            Some((columns, rows[i])),
            database,
        ),
{
    reveal(eval);
}

/// The key by which a sort places a row: the value of the sort expression against it.
pub open spec fn sort_key(
    sort: OrderBy,
    columns: Seq<ColumnView>,
    row: Seq<ValueView>,
    database: DatabaseView,
) -> ValueView {
    eval(sort.expr, Some((columns, row)), Some(database))->Ok_0
}

/// In the result of `order by`, the key of each row may stand before the key of the
/// row that follows it: ascending, it is no greater in the order of values;
/// descending, no smaller.
pub proof fn theorem_order_by_orders(sort: OrderBy, table: TableView, database: DatabaseView)
    requires
        ordered(Some(sort), table, database) is Ok,
    ensures
        ordered(Some(sort), table, database)->Ok_0.columns == table.columns,
        ordered(Some(sort), table, database)->Ok_0.rows.len() == table.rows.len(),
        forall|p: int|
            0 <= p && p + 1 < table.rows.len() ==> in_order(
                sort.direction,
                sort_key(
                    sort,
                    table.columns,
                    #[trigger] ordered(Some(sort), table, database)->Ok_0.rows[p],
                    database,
                ),
                sort_key(
                    sort,
                    table.columns,
                    ordered(Some(sort), table, database)->Ok_0.rows[p + 1],
                    database,
                ),
            ),
{
    let keys = eval_rows(sort.expr, table.columns, table.rows, Some(database));
    let key = |row: Seq<ValueView>| sort_key(sort, table.columns, row, database);
    assert(keys.len() == table.rows.len());
    lemma_collect_first(keys, table.rows.len());
    assert forall|i: int| 0 <= i < table.rows.len() implies keys[i] == Ok::<ValueView, Error>(
        key(table.rows[i]),
    ) by {
        let values = collect_first(keys, table.rows.len())->Ok_0;
        assert(keys[i] == Ok::<ValueView, Error>(values[i]));
        lemma_eval_rows_at(sort.expr, table.columns, table.rows, Some(database), i);
        assert(key(table.rows[i]) == sort_key(sort, table.columns, table.rows[i], database));
    }
    theorem_sort_orders(table.rows, keys, key, sort.direction);
}

} // verus!
