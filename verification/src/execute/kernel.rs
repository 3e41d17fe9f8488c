//! The operations of a select query on tables: filter, sort and join.

use crate::data::column::Column;
use crate::data::column::columns_view;
use crate::data::database::Database;
use crate::data::row::Row;
use crate::data::row::clone_values;
use crate::data::row::rows_view;
use crate::data::table::Table;
use crate::data::table::TableView;
use crate::data::table::clone_columns;
use crate::data::table::rows_have_width;
use crate::data::value::Value;
use crate::data::value::ValueView;
use crate::data::value::views_of;
use crate::execute::evaluate::EvaluationError;
use crate::execute::evaluate::eval_rows;
use crate::execute::evaluate::evaluate;
use crate::execute::evaluate::value_view;
use crate::execute::evaluate::verdict;
use crate::execute::evaluate::verdicts;
use crate::execute::relation::candidate;
use crate::execute::relation::candidates;
use crate::execute::relation::filter_by;
use crate::execute::relation::filter_first;
use crate::execute::relation::in_order;
use crate::execute::relation::is_first_error;
use crate::execute::relation::join_first;
use crate::execute::relation::lemma_collect_all;
use crate::execute::relation::lemma_collect_fails;
use crate::execute::relation::lemma_filter_fails;
use crate::execute::relation::lemma_filter_first;
use crate::execute::relation::lemma_join_fails;
use crate::execute::relation::nulls;
use crate::execute::relation::padded;
use crate::execute::relation::place;
use crate::execute::relation::sort_by;
use crate::execute::relation::sorted_order;
use crate::execute::select::Error;
use crate::execute::select::join_tables;
use crate::execute::select::join_verdicts;
use crate::execute::select::row_verdicts;
use crate::parse::ast::Expression;
use crate::parse::ast::JoinKind;
use crate::parse::ast::OrderBy;
use crate::parse::ast::OrderByDirection;
use vstd::prelude::*;

verus! {

/// The verdicts of a condition on the rows of a table, as flags; the first error,
/// where the condition fails on a row or gives a value that is no boolean.
pub fn condition_flags(
    columns: &Vec<Column>,
    rows: &Vec<Row>,
    predicate: &Expression,
    database: &Database,
) -> (res: Result<Vec<bool>, Error>)
    requires
        rows_have_width(rows_view(rows@), columns.len() as nat),
        database.wf(),
    ensures
        match res {
            Ok(flags) => flags.len() == rows.len() && forall|j: int|
                0 <= j < flags.len() ==> verdicts(
                    *predicate,
                    columns_view(columns@),
                    rows_view(rows@),
                    Some(database@),
                )[j] == Ok::<bool, Error>(#[trigger] flags[j]),
            Err(e) => exists|i: int|
                is_first_error(
                    verdicts(*predicate, columns_view(columns@), rows_view(rows@), Some(database@)),
                    i,
                    e,
                ),
        },
    decreases predicate, 1nat,
{
    let ghost vs = verdicts(*predicate, columns_view(columns@), rows_view(rows@), Some(database@));
    let mut keep: Vec<bool> = Vec::new();
    let mut i: usize = 0;
    #[verifier::loop_isolation(false)]
    while i < rows.len()
        invariant
            i <= rows.len(),
            keep.len() == i,
            forall|j: int|
                #![trigger vs[j]]
                #![trigger keep[j]]
                0 <= j < i ==> vs[j] == Ok::<bool, Error>(keep[j]),
        decreases rows.len() - i,
    {
        assert(rows_view(rows@)[i as int] == rows[i as int]@);
        let value = evaluate(predicate, Some((columns, &rows[i])), Some(database));
        assert(vs[i as int] == verdict(value_view(value)));
        match value {
            Ok(Value::Boolean(b)) => {
                keep.push(b);
            },
            Ok(_) => {
                let e = Error::Evaluation(EvaluationError::NonBoolean);
                assert(is_first_error(vs, i as int, e));
                return Err(e);
            },
            Err(e) => {
                assert(is_first_error(vs, i as int, e));
                return Err(e);
            },
        }
        i += 1;
    }
    Ok(keep)
}

/// The values of an expression against each row of a table; the first error, where
/// the expression fails on a row.
pub fn evaluate_rows(
    columns: &Vec<Column>,
    rows: &Vec<Row>,
    expr: &Expression,
    database: &Database,
) -> (res: Result<Vec<Value>, Error>)
    requires
        rows_have_width(rows_view(rows@), columns.len() as nat),
        database.wf(),
    ensures
        match res {
            Ok(values) => values.len() == rows.len() && forall|j: int|
                0 <= j < values.len() ==> (#[trigger] eval_rows(
                    *expr,
                    columns_view(columns@),
                    rows_view(rows@),
                    Some(database@),
                )[j]) == Ok::<ValueView, Error>(values[j]@),
            Err(e) => exists|i: int|
                is_first_error(
                    eval_rows(*expr, columns_view(columns@), rows_view(rows@), Some(database@)),
                    i,
                    e,
                ),
        },
    decreases expr, 1nat,
{
    let ghost vs = eval_rows(*expr, columns_view(columns@), rows_view(rows@), Some(database@));
    let mut values: Vec<Value> = Vec::new();
    let mut i: usize = 0;
    #[verifier::loop_isolation(false)]
    while i < rows.len()
        invariant
            i <= rows.len(),
            values.len() == i,
            forall|j: int| 0 <= j < i ==> (#[trigger] vs[j]) == Ok::<ValueView, Error>(values[j]@),
        decreases rows.len() - i,
    {
        assert(rows_view(rows@)[i as int] == rows[i as int]@);
        let value = evaluate(expr, Some((columns, &rows[i])), Some(database));
        assert(vs[i as int] == value_view(value));
        match value {
            Ok(v) => {
                values.push(v);
            },
            Err(e) => {
                assert(is_first_error(vs, i as int, e));
                return Err(e);
            },
        }
        i += 1;
    }
    Ok(values)
}

/// Whether a row with key `a` may stand directly before one with key `b`.
pub fn keys_in_order(direction: OrderByDirection, a: &Value, b: &Value) -> (r: bool)
    ensures
        r == in_order(direction, a@, b@),
{
    match direction {
        OrderByDirection::Asc => a.le(b),
        OrderByDirection::Desc => b.le(a),
    }
}

/// The row that a join tests for an outer and an inner row: copies of their values,
/// those of the left table first.
pub fn candidate_row(kind: JoinKind, outer: &Row, inner: &Row) -> (row: Row)
    ensures
        row@ == candidate(kind, outer@, inner@),
{
    let (first, second) = match kind {
        JoinKind::Right => (inner, outer),
        _ => (outer, inner),
    };
    let mut values = clone_values(&first.0);
    let mut rest = clone_values(&second.0);
    values.append(&mut rest);
    let row = Row(values);
    assert(row@ =~= first@ + second@);
    row
}

/// The row that a join emits for an outer row without a match: its values, and nulls
/// in place of the other table's.
pub fn padded_row(kind: JoinKind, outer: &Row, left_width: usize, right_width: usize) -> (row:
    Row)
    requires
        kind != JoinKind::Inner,
    ensures
        seq![row@] == padded(kind, outer@, left_width as nat, right_width as nat),
{
    let width = match kind {
        JoinKind::Right => left_width,
        _ => right_width,
    };
    let mut blank: Vec<Value> = Vec::new();
    let mut i: usize = 0;
    while i < width
        invariant
            i <= width,
            blank.len() == i,
            forall|j: int| 0 <= j < i ==> blank[j] == Value::Null,
        decreases width - i,
    {
        blank.push(Value::Null);
        i += 1;
    }
    assert(views_of(blank@) =~= nulls(width as nat));
    let mut copy = clone_values(&outer.0);
    let row = match kind {
        JoinKind::Right => {
            blank.append(&mut copy);
            Row(blank)
        },
        _ => {
            copy.append(&mut blank);
            Row(copy)
        },
    };
    assert(row@ =~= (if kind == JoinKind::Right {
        nulls(width as nat) + outer@
    } else {
        outer@ + nulls(width as nat)
    }));
    assert(seq![row@] =~= padded(kind, outer@, left_width as nat, right_width as nat));
    row
}

/// The candidate rows of one outer row for which the join condition is true, in the
/// order of the inner rows.
pub fn matching_rows(
    columns: &Vec<Column>,
    outer: &Row,
    inner: &Vec<Row>,
    kind: JoinKind,
    condition: &Expression,
    database: &Database,
) -> (res: Result<Vec<Row>, Error>)
    requires
        forall|j: int|
            0 <= j < inner.len() ==> outer@.len() + (#[trigger] rows_view(inner@)[j]).len()
                == columns.len(),
        database.wf(),
    ensures
        match res {
            Ok(found) => filter_by(
                candidates(kind, outer@, rows_view(inner@)),
                row_verdicts(
                    kind,
                    *condition,
                    columns_view(columns@),
                    outer@,
                    rows_view(inner@),
                    database@,
                ),
            ) == Ok::<Seq<Seq<ValueView>>, Error>(rows_view(found@)) && rows_have_width(
                rows_view(found@),
                columns.len() as nat,
            ),
            Err(e) => filter_by(
                candidates(kind, outer@, rows_view(inner@)),
                row_verdicts(
                    kind,
                    *condition,
                    columns_view(columns@),
                    outer@,
                    rows_view(inner@),
                    database@,
                ),
            ) == Err::<Seq<Seq<ValueView>>, Error>(e),
        },
    decreases condition, 1nat,
{
    let ghost cands = candidates(kind, outer@, rows_view(inner@));
    let ghost vs = row_verdicts(
        kind,
        *condition,
        columns_view(columns@),
        outer@,
        rows_view(inner@),
        database@,
    );
    let mut found: Vec<Row> = Vec::new();
    let mut j: usize = 0;
    assert(rows_view(found@) =~= Seq::<Seq<ValueView>>::empty());
    #[verifier::loop_isolation(false)]
    while j < inner.len()
        invariant
            j <= inner.len(),
            filter_first(cands, vs, j as nat) == Ok::<Seq<Seq<ValueView>>, Error>(
                rows_view(found@),
            ),
            rows_have_width(rows_view(found@), columns.len() as nat),
        decreases inner.len() - j,
    {
        assert(rows_view(inner@)[j as int] == inner[j as int]@);
        let row = candidate_row(kind, outer, &inner[j]);
        assert(row@ == cands[j as int]);
        let value = evaluate(condition, Some((columns, &row)), Some(database));
        assert(vs[j as int] == verdict(value_view(value)));
        let ghost kept = rows_view(found@);
        match value {
            Ok(Value::Boolean(b)) => {
                if b {
                    found.push(row);
                    assert(rows_view(found@) =~= kept.push(row@));
                }
            },
            Ok(_) => {
                proof {
                    lemma_filter_first(cands, vs, j as nat);
                    lemma_filter_fails(cands, vs, j as int);
                }
                return Err(Error::Evaluation(EvaluationError::NonBoolean));
            },
            Err(e) => {
                proof {
                    lemma_filter_first(cands, vs, j as nat);
                    lemma_filter_fails(cands, vs, j as int);
                }
                return Err(e);
            },
        }
        j += 1;
    }
    Ok(found)
}

impl Table {
    /// Keeps the rows for which the condition is true, in their order.
    ///
    /// The condition is evaluated against every row in turn. Where it fails on a row,
    /// or gives a value that is no boolean, that is the error, and the table is left
    /// as it was.
    pub fn filter(&mut self, predicate: &Expression, database: &Database) -> (res: Result<
        (),
        Error,
    >)
        requires
            old(self)@.well_shaped(),
            database.wf(),
        ensures
            final(self)@.columns == old(self)@.columns,
            match res {
                Ok(_) => filter_by(
                    old(self)@.rows,
                    verdicts(*predicate, old(self)@.columns, old(self)@.rows, Some(database@)),
                ) == Ok::<Seq<Seq<ValueView>>, Error>(final(self)@.rows),
                Err(e) => filter_by(
                    old(self)@.rows,
                    verdicts(*predicate, old(self)@.columns, old(self)@.rows, Some(database@)),
                ) == Err::<Seq<Seq<ValueView>>, Error>(e) && final(self)@ == old(self)@,
            },
            final(self)@.well_shaped(),
        decreases predicate, 2nat,
    {
        let ghost before = self@;
        let ghost vs = verdicts(*predicate, before.columns, before.rows, Some(database@));
        match condition_flags(&self.columns, &self.rows, predicate, database) {
            Err(e) => {
                proof {
                    let i = choose|i: int| is_first_error(vs, i, e);
                    lemma_filter_fails(before.rows, vs, i);
                }
                Err(e)
            },
            Ok(keep) => {
                self.retain_flagged(&keep, Ghost(vs));
                proof {
                    lemma_filter_first(before.rows, vs, before.rows.len());
                }
                Ok(())
            },
        }
    }

    /// Joins this table, as the left one, with `other`: a nested-loop join.
    ///
    /// The columns of the result are those of both tables, the left ones first. An
    /// inner and a left join take each row of the left table in turn, a right join
    /// each row of the right table; for that outer row every row of the other table is
    /// tried in turn, and the pair is emitted where the condition is true of it. A
    /// left or right join emits an outer row that found no match once, with nulls in
    /// place of the other table's values. Where the condition fails on a pair, or gives
    /// a value that is no boolean, that is the error, and this table is left as it was.
    pub fn join(
        &mut self,
        other: Table,
        condition: &Expression,
        kind: JoinKind,
        database: &Database,
    ) -> (res: Result<(), Error>)
        requires
            old(self)@.well_shaped(),
            other@.well_shaped(),
            database.wf(),
        ensures
            match res {
                Ok(_) => join_tables(old(self)@, other@, *condition, kind, database@) == Ok::<
                    TableView,
                    Error,
                >(final(self)@),
                Err(e) => join_tables(old(self)@, other@, *condition, kind, database@) == Err::<
                    TableView,
                    Error,
                >(e) && final(self)@ == old(self)@,
            },
            final(self)@.well_shaped(),
        decreases condition, 3nat,
    {
        let ghost left = self@;
        let ghost right = other@;
        let left_width = self.columns.len();
        let right_width = other.columns.len();
        let mut other = other;
        let mut columns = clone_columns(&self.columns);
        columns.append(&mut other.columns);
        assert(columns_view(columns@) =~= left.columns + right.columns);
        let ghost cols = columns_view(columns@);
        let mut rows: Vec<Row> = Vec::new();
        {
            let (outer, inner) = match kind {
                JoinKind::Right => (&other.rows, &self.rows),
                _ => (&self.rows, &other.rows),
            };
            let ghost ov = rows_view(outer@);
            let ghost iv = rows_view(inner@);
            let ghost vs = join_verdicts(kind, *condition, cols, ov, iv, database@);
            assert(rows_view(rows@) =~= Seq::<Seq<ValueView>>::empty());
            let mut i: usize = 0;
            #[verifier::loop_isolation(false)]
            while i < outer.len()
                invariant
                    i <= outer.len(),
                    join_first(kind, ov, iv, vs, left_width as nat, right_width as nat, i as nat)
                        == Ok::<Seq<Seq<ValueView>>, Error>(rows_view(rows@)),
                    rows_have_width(rows_view(rows@), columns.len() as nat),
                decreases outer.len() - i,
            {
                assert(ov[i as int] == outer[i as int]@);
                assert forall|j: int| 0 <= j < inner.len() implies outer[i as int]@.len() + (
                #[trigger] rows_view(inner@)[j]).len() == columns.len() by {}
                let ghost sofar = rows_view(rows@);
                match matching_rows(&columns, &outer[i], inner, kind, condition, database) {
                    Err(e) => {
                        proof {
                            lemma_join_fails(
                                kind,
                                ov,
                                iv,
                                vs,
                                left_width as nat,
                                right_width as nat,
                                i as int,
                                ov.len(),
                            );
                        }
                        return Err(e);
                    },
                    Ok(mut found) => {
                        let ghost more = rows_view(found@);
                        if found.len() > 0 {
                            rows.append(&mut found);
                            assert(rows_view(rows@) =~= sofar + more);
                        } else if kind != JoinKind::Inner {
                            let row = padded_row(kind, &outer[i], left_width, right_width);
                            rows.push(row);
                            assert(rows_view(rows@) =~= sofar + seq![row@]);
                        } else {
                            assert(rows_view(rows@) =~= sofar + Seq::<Seq<ValueView>>::empty());
                        }
                    },
                }
                i += 1;
            }
        }
        self.columns = columns;
        self.rows = rows;
        Ok(())
    }

    /// Sorts the rows by the value of an expression, ascending or descending.
    ///
    /// The key of every row is evaluated first, in the order of the rows; where that
    /// fails, the table is left as it was. Each row in turn is then placed behind the
    /// last row placed so far that may stand before it, so rows with equal keys keep
    /// their order.
    pub fn sort(&mut self, order_by: &OrderBy, database: &Database) -> (res: Result<(), Error>)
        requires
            old(self)@.well_shaped(),
            database.wf(),
        ensures
            final(self)@.columns == old(self)@.columns,
            match res {
                Ok(_) => sort_by(
                    old(self)@.rows,
                    eval_rows(order_by.expr, old(self)@.columns, old(self)@.rows, Some(database@)),
                    order_by.direction,
                ) == Ok::<Seq<Seq<ValueView>>, Error>(final(self)@.rows),
                Err(e) => sort_by(
                    old(self)@.rows,
                    eval_rows(order_by.expr, old(self)@.columns, old(self)@.rows, Some(database@)),
                    order_by.direction,
                ) == Err::<Seq<Seq<ValueView>>, Error>(e) && final(self)@ == old(self)@,
            },
            final(self)@.well_shaped(),
        decreases order_by, 2nat,
    {
        let ghost before = self@;
        let ghost vs = eval_rows(order_by.expr, before.columns, before.rows, Some(database@));
        match evaluate_rows(&self.columns, &self.rows, &order_by.expr, database) {
            Err(e) => {
                proof {
                    let i = choose|i: int| is_first_error(vs, i, e);
                    lemma_collect_fails(vs, i, e, before.rows.len());
                }
                Err(e)
            },
            Ok(keys) => {
                proof {
                    lemma_collect_all(vs, views_of(keys@), before.rows.len());
                    assert(views_of(keys@).take(before.rows.len() as int) =~= views_of(keys@));
                }
                self.arrange(&keys, order_by.direction);
                proof {
                    crate::execute::relation::lemma_sorted_order(
                        order_by.direction,
                        views_of(keys@),
                        before.rows.len(),
                    );
                }
                Ok(())
            },
        }
    }

    /// Puts the rows in the order of their keys.
    fn arrange(&mut self, keys: &Vec<Value>, direction: OrderByDirection)
        requires
            keys.len() == old(self).rows.len(),
        ensures
            final(self).columns == old(self).columns,
            final(self)@.rows == sorted_order(
                direction,
                views_of(keys@),
                old(self).rows.len() as nat,
            ).map_values(|i: int| old(self)@.rows[i]),
    {
        let ghost before = self@;
        let ghost ks = views_of(keys@);
        let mut rows: Vec<Row> = Vec::new();
        core::mem::swap(&mut self.rows, &mut rows);
        let ghost all = rows@;
        assert(rows_view(all) == before.rows);
        let mut placed: Vec<Value> = Vec::new();
        let ghost mut order: Seq<int> = Seq::empty();
        let mut k: usize = 0;
        for row in it: rows
            invariant
                it.seq() == all,
                k == it.index(),
                keys.len() == all.len(),
                ks == views_of(keys@),
                rows_view(all) == before.rows,
                self.columns == old(self).columns,
                order == sorted_order(direction, ks, k as nat),
                order.len() == k,
                self.rows.len() == k,
                placed.len() == k,
                forall|p: int| 0 <= p < k ==> 0 <= #[trigger] order[p] < k,
                forall|p: int|
                    0 <= p < k ==> (#[trigger] self.rows[p])@ == before.rows[order[p]],
                forall|p: int| 0 <= p < k ==> (#[trigger] placed[p])@ == ks[order[p]],
        {
            assert(before.rows[k as int] == all[k as int]@);
            let key = keys[k].clone();
            let mut m: usize = k;
            while m > 0 && !keys_in_order(direction, &placed[m - 1], &key)
                invariant
                    m <= k,
                    placed.len() == k,
                    order.len() == k,
                    k < keys.len(),
                    ks == views_of(keys@),
                    key@ == ks[k as int],
                    forall|p: int| 0 <= p < k ==> (#[trigger] placed[p])@ == ks[order[p]],
                    place(direction, ks, order, ks[k as int], k as nat) == place(
                        direction,
                        ks,
                        order,
                        ks[k as int],
                        m as nat,
                    ),
                decreases m,
            {
                m -= 1;
            }
            assert(m == place(direction, ks, order, ks[k as int], k as nat));
            placed.insert(m, key);
            self.rows.insert(m, row);
            proof {
                order = order.insert(m as int, k as int);
            }
            k += 1;
        }
        assert(self@.rows =~= order.map_values(|i: int| before.rows[i]));
    }

    /// Keeps the rows whose flag is set.
    fn retain_flagged(&mut self, keep: &Vec<bool>, Ghost(vs): Ghost<Seq<Result<bool, Error>>>)
        requires
            keep.len() == old(self).rows.len(),
            forall|j: int| 0 <= j < keep.len() ==> vs[j] == Ok::<bool, Error>(#[trigger] keep[j]),
        ensures
            final(self).columns == old(self).columns,
            filter_by(old(self)@.rows, vs) == Ok::<Seq<Seq<ValueView>>, Error>(final(self)@.rows),
    {
        let ghost before = self@;
        let mut rows: Vec<Row> = Vec::new();
        core::mem::swap(&mut self.rows, &mut rows);
        let ghost all = rows@;
        assert(rows_view(all) == before.rows);
        assert(rows_view(self.rows@) =~= Seq::<Seq<ValueView>>::empty());
        let mut k: usize = 0;
        for row in it: rows
            invariant
                it.seq() == all,
                k == it.index(),
                keep.len() == all.len(),
                rows_view(all) == before.rows,
                forall|j: int|
                    0 <= j < keep.len() ==> vs[j] == Ok::<bool, Error>(#[trigger] keep[j]),
                self.columns == old(self).columns,
                Ok::<Seq<Seq<ValueView>>, Error>(rows_view(self.rows@)) == filter_first(
                    before.rows,
                    vs,
                    k as nat,
                ),
        {
            assert(before.rows[k as int] == all[k as int]@);
            let ghost kept = rows_view(self.rows@);
            if keep[k] {
                self.rows.push(row);
                assert(rows_view(self.rows@) =~= kept.push(row@));
            }
            k += 1;
        }
    }
}

} // verus!
