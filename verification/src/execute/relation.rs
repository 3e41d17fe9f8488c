//! The operations on rows that a select query is made of, stated on plain sequences.
//!
//! A condition or a sort key enters as the sequence of its results on the rows, so
//! nothing here depends on how expressions are evaluated.

use crate::data::value::lemma_value_le_total;
use crate::data::value::value_le;
use crate::data::value::ValueView;
use crate::parse::ast::JoinKind;
use crate::parse::ast::OrderByDirection;
use vstd::prelude::*;

verus! {

/// Whether the result at `i` is the error `e` and no result before it is an error.
pub open spec fn is_first_error<V, E>(results: Seq<Result<V, E>>, i: int, e: E) -> bool {
    &&& 0 <= i < results.len()
    &&& results[i] == Err::<V, E>(e)
    &&& forall|j: int| 0 <= j < i ==> (#[trigger] results[j]) is Ok
}

/// The first `n` rows, or all of them where there are fewer.
pub open spec fn limited<T>(rows: Seq<T>, n: nat) -> Seq<T> {
    if n <= rows.len() {
        rows.take(n as int)
    } else {
        rows
    }
}

/// Of the first `n` rows, those whose verdict is `true`, in their order; the first
/// error among the first `n` verdicts, where there is one.
pub open spec fn filter_first<T, E>(rows: Seq<T>, verdicts: Seq<Result<bool, E>>, n: nat) -> Result<
    Seq<T>,
    E,
>
    decreases n,
{
    if n == 0 {
        Ok(Seq::empty())
    } else {
        match filter_first(rows, verdicts, (n - 1) as nat) {
            Err(e) => Err(e),
            Ok(kept) => match verdicts[n - 1] {
                Err(e) => Err(e),
                Ok(true) => Ok(kept.push(rows[n - 1])),
                Ok(false) => Ok(kept),
            },
        }
    }
}

/// The rows whose verdict is `true`, in their order.
pub open spec fn filter_by<T, E>(rows: Seq<T>, verdicts: Seq<Result<bool, E>>) -> Result<
    Seq<T>,
    E,
> {
    filter_first(rows, verdicts, rows.len())
}

/// A row of nulls.
pub open spec fn nulls(width: nat) -> Seq<ValueView> {
    Seq::new(width, |i: int| ValueView::Null)
}

/// The row that a join tests and emits for a pair of rows: the values of the left
/// table first, whichever side is the outer one.
pub open spec fn candidate(kind: JoinKind, outer: Seq<ValueView>, inner: Seq<ValueView>) -> Seq<
    ValueView,
> {
    if kind == JoinKind::Right {
        inner + outer
    } else {
        outer + inner
    }
}

/// The candidate rows of one outer row, one for each inner row.
pub open spec fn candidates(kind: JoinKind, outer: Seq<ValueView>, inner: Seq<Seq<ValueView>>) -> Seq<
    Seq<ValueView>,
> {
    Seq::new(inner.len(), |j: int| candidate(kind, outer, inner[j]))
}

/// What a join emits for an outer row that matched no inner row.
pub open spec fn padded(kind: JoinKind, outer: Seq<ValueView>, left_width: nat, right_width: nat) -> Seq<
    Seq<ValueView>,
> {
    match kind {
        JoinKind::Inner => Seq::empty(),
        JoinKind::Left => seq![outer + nulls(right_width)],
        JoinKind::Right => seq![nulls(left_width) + outer],
    }
}

/// What a join emits for one outer row: its matches in the order of the inner rows,
/// or the padded row where nothing matched.
pub open spec fn joined_row<E>(
    kind: JoinKind,
    outer: Seq<ValueView>,
    inner: Seq<Seq<ValueView>>,
    verdicts: Seq<Result<bool, E>>,
    left_width: nat,
    right_width: nat,
) -> Result<Seq<Seq<ValueView>>, E> {
    match filter_by(candidates(kind, outer, inner), verdicts) {
        Err(e) => Err(e),
        Ok(found) => if found.len() == 0 {
            Ok(padded(kind, outer, left_width, right_width))
        } else {
            Ok(found)
        },
    }
}

/// What a join emits for the first `n` outer rows.
pub open spec fn join_first<E>(
    kind: JoinKind,
    outer: Seq<Seq<ValueView>>,
    inner: Seq<Seq<ValueView>>,
    verdicts: Seq<Seq<Result<bool, E>>>,
    left_width: nat,
    right_width: nat,
    n: nat,
) -> Result<Seq<Seq<ValueView>>, E>
    decreases n,
{
    if n == 0 {
        Ok(Seq::empty())
    } else {
        match join_first(kind, outer, inner, verdicts, left_width, right_width, (n - 1) as nat) {
            Err(e) => Err(e),
            Ok(rows) => match joined_row(
                kind,
                outer[n - 1],
                inner,
                verdicts[n - 1],
                left_width,
                right_width,
            ) {
                Err(e) => Err(e),
                Ok(more) => Ok(rows + more),
            },
        }
    }
}

/// The nested-loop join. `outer` holds the rows of the left table, and `inner` those
/// of the right one, but for a right join, where it is the other way round.
/// `verdicts[i][j]` is the result of the condition on the candidate row of
/// `outer[i]` and `inner[j]`.
pub open spec fn join_by<E>(
    kind: JoinKind,
    outer: Seq<Seq<ValueView>>,
    inner: Seq<Seq<ValueView>>,
    verdicts: Seq<Seq<Result<bool, E>>>,
    left_width: nat,
    right_width: nat,
) -> Result<Seq<Seq<ValueView>>, E> {
    join_first(kind, outer, inner, verdicts, left_width, right_width, outer.len())
}

/// The first `n` results without their `Ok`, or the first error among them.
pub open spec fn collect_first<V, E>(results: Seq<Result<V, E>>, n: nat) -> Result<Seq<V>, E>
    decreases n,
{
    if n == 0 {
        Ok(Seq::empty())
    } else {
        match collect_first(results, (n - 1) as nat) {
            Err(e) => Err(e),
            Ok(values) => match results[n - 1] {
                Err(e) => Err(e),
                Ok(v) => Ok(values.push(v)),
            },
        }
    }
}

/// Whether a row with key `a` may stand directly before one with key `b`.
pub open spec fn in_order(direction: OrderByDirection, a: ValueView, b: ValueView) -> bool {
    match direction {
        OrderByDirection::Asc => value_le(a, b),
        OrderByDirection::Desc => value_le(b, a),
    }
}

/// Where a row with key `key` goes among the first `m` rows of `order`: behind the
/// last of them that may stand before it.
pub open spec fn place(
    direction: OrderByDirection,
    keys: Seq<ValueView>,
    order: Seq<int>,
    key: ValueView,
    m: nat,
) -> nat
    decreases m,
{
    if m == 0 {
        0
    } else if in_order(direction, keys[order[m - 1]], key) {
        m
    } else {
        place(direction, keys, order, key, (m - 1) as nat)
    }
}

/// The order in which a sort emits the first `n` rows, as indices into the rows: each
/// row in turn is placed behind the last row placed so far that may stand before it.
pub open spec fn sorted_order(direction: OrderByDirection, keys: Seq<ValueView>, n: nat) -> Seq<
    int,
>
    decreases n,
{
    if n == 0 {
        Seq::empty()
    } else {
        let before = sorted_order(direction, keys, (n - 1) as nat);
        before.insert(place(direction, keys, before, keys[n - 1], before.len()) as int, n - 1)
    }
}

/// The rows sorted by their keys; the first error among the keys, where there is one.
pub open spec fn sort_by<T, E>(
    rows: Seq<T>,
    keys: Seq<Result<ValueView, E>>,
    direction: OrderByDirection,
) -> Result<Seq<T>, E> {
    match collect_first(keys, rows.len()) {
        Err(e) => Err(e),
        Ok(ks) => Ok(sorted_order(direction, ks, rows.len()).map_values(|i: int| rows[i])),
    }
}

/// Collecting gives as many values as results, each the value of its result; where
/// it fails, one of the results is that error.
pub proof fn lemma_collect_first<V, E>(results: Seq<Result<V, E>>, n: nat)
    requires
        n <= results.len(),
    ensures
        match collect_first(results, n) {
            Ok(values) => values.len() == n && forall|i: int|
                0 <= i < n ==> results[i] == Ok::<V, E>(#[trigger] values[i]),
            Err(e) => exists|i: int| 0 <= i < n && results[i] == Err::<V, E>(e),
        },
    decreases n,
{
    if n > 0 {
        lemma_collect_first(results, (n - 1) as nat);
    }
}

/// The place of a row stands behind a row that may stand before it, and before rows
/// that it may stand before.
pub proof fn lemma_place(
    direction: OrderByDirection,
    keys: Seq<ValueView>,
    order: Seq<int>,
    key: ValueView,
    m: nat,
)
    ensures
        place(direction, keys, order, key, m) <= m,
        place(direction, keys, order, key, m) > 0 ==> in_order(
            direction,
            keys[order[place(direction, keys, order, key, m) - 1]],
            key,
        ),
        forall|q: int|
            place(direction, keys, order, key, m) <= q < m ==> in_order(
                direction,
                key,
                #[trigger] keys[order[q]],
            ),
    decreases m,
{
    if m > 0 {
        if !in_order(direction, keys[order[m - 1]], key) {
            lemma_place(direction, keys, order, key, (m - 1) as nat);
            lemma_value_le_total(keys[order[m - 1]], key);
        }
    }
}

/// Collecting fails with the first result that is an error.
pub proof fn lemma_collect_fails<V, E>(results: Seq<Result<V, E>>, i: int, e: E, n: nat)
    requires
        is_first_error(results, i, e),
    ensures
        n <= i ==> collect_first(results, n) is Ok,
        n > i ==> collect_first(results, n) == Err::<Seq<V>, E>(e),
    decreases n,
{
    if n > 0 {
        lemma_collect_fails(results, i, e, (n - 1) as nat);
    }
}

/// Collecting results that are all `Ok` gives their values.
pub proof fn lemma_collect_all<V, E>(results: Seq<Result<V, E>>, values: Seq<V>, n: nat)
    requires
        n <= values.len(),
        forall|j: int| 0 <= j < n ==> (#[trigger] results[j]) == Ok::<V, E>(values[j]),
    ensures
        collect_first(results, n) == Ok::<Seq<V>, E>(values.take(n as int)),
    decreases n,
{
    if n > 0 {
        lemma_collect_all(results, values, (n - 1) as nat);
        assert(values.take(n - 1).push(values[n - 1]) =~= values.take(n as int));
    } else {
        assert(values.take(0) =~= Seq::<V>::empty());
    }
}

/// A sort emits every row exactly once, and each row that follows another may stand
/// behind it.
pub proof fn lemma_sorted_order(direction: OrderByDirection, keys: Seq<ValueView>, n: nat)
    ensures
        sorted_order(direction, keys, n).len() == n,
        forall|p: int| 0 <= p < n ==> 0 <= #[trigger] sorted_order(direction, keys, n)[p] < n,
        forall|p: int, q: int|
            0 <= p < q < n ==> sorted_order(direction, keys, n)[p] != sorted_order(
                direction,
                keys,
                n,
            )[q],
        forall|p: int|
            0 <= p && p + 1 < n ==> in_order(
                direction,
                #[trigger] keys[sorted_order(direction, keys, n)[p]],
                keys[sorted_order(direction, keys, n)[p + 1]],
            ),
    decreases n,
{
    if n > 0 {
        let before = sorted_order(direction, keys, (n - 1) as nat);
        lemma_sorted_order(direction, keys, (n - 1) as nat);
        let key = keys[n - 1];
        let pl = place(direction, keys, before, key, before.len()) as int;
        lemma_place(direction, keys, before, key, before.len());
        let after = sorted_order(direction, keys, n);
        assert(after == before.insert(pl, n - 1));
        assert(after.len() == n);
        assert forall|p: int| 0 <= p < n implies (if p < pl {
            after[p] == before[p]
        } else if p == pl {
            after[p] == n - 1
        } else {
            after[p] == before[p - 1]
        }) by {}
        assert forall|p: int| 0 <= p && p + 1 < n implies in_order(
            direction,
            #[trigger] keys[after[p]],
            keys[after[p + 1]],
        ) by {
            if p + 1 < pl {
                assert(in_order(direction, keys[before[p]], keys[before[p + 1]]));
            } else if p + 1 == pl {
            } else if p == pl {
                assert(in_order(direction, key, keys[before[pl]]));
            } else {
                assert(in_order(direction, keys[before[p - 1]], keys[before[p - 1 + 1]]));
            }
        }
    }
}

/// What a filter keeps are rows that it was given, in their order: `kept[k]` is the
/// row at `source[k]`, and the sources rise.
pub proof fn lemma_filter_first<T, E>(rows: Seq<T>, verdicts: Seq<Result<bool, E>>, n: nat)
    requires
        filter_first(rows, verdicts, n) is Ok,
    ensures
        filter_first(rows, verdicts, n)->Ok_0.len() <= n,
        forall|k: int|
            0 <= k < filter_first(rows, verdicts, n)->Ok_0.len() ==> exists|i: int|
                0 <= i < n && verdicts[i] == Ok::<bool, E>(true) && #[trigger] filter_first(
                    rows,
                    verdicts,
                    n,
                )->Ok_0[k] == rows[i],
        forall|i: int|
            0 <= i < n ==> (#[trigger] verdicts[i]) is Ok,
        forall|i: int|
            0 <= i < n && verdicts[i] == Ok::<bool, E>(true) ==> filter_first(
                rows,
                verdicts,
                n,
            )->Ok_0.len() > 0,
    decreases n,
{
    if n > 0 {
        lemma_filter_first(rows, verdicts, (n - 1) as nat);
        let before = filter_first(rows, verdicts, (n - 1) as nat)->Ok_0;
        let kept = filter_first(rows, verdicts, n)->Ok_0;
        assert forall|k: int| 0 <= k < kept.len() implies exists|i: int|
            0 <= i < n && verdicts[i] == Ok::<bool, E>(true) && #[trigger] kept[k] == rows[i] by {
            if k < before.len() {
                let i = choose|i: int|
                    0 <= i < n - 1 && verdicts[i] == Ok::<bool, E>(true) && before[k] == rows[i];
                assert(kept[k] == rows[i]);
            } else {
                assert(kept[k] == rows[n - 1]);
            }
        }
    }
}

/// Where every verdict is `true`, a filter keeps every row.
pub proof fn lemma_filter_all<T, E>(rows: Seq<T>, verdicts: Seq<Result<bool, E>>, n: nat)
    requires
        n <= rows.len(),
        forall|i: int| 0 <= i < n ==> verdicts[i] == Ok::<bool, E>(true),
    ensures
        filter_first(rows, verdicts, n) == Ok::<Seq<T>, E>(rows.take(n as int)),
    decreases n,
{
    if n > 0 {
        lemma_filter_all(rows, verdicts, (n - 1) as nat);
        assert(rows.take(n - 1).push(rows[n - 1]) =~= rows.take(n as int));
    } else {
        assert(rows.take(0) =~= Seq::<T>::empty());
    }
}

/// The row at place `i * width + j`: in a product, the pair of outer row `i` and
/// inner row `j`.
pub open spec fn pair_at(
    rows: Seq<Seq<ValueView>>,
    width: nat,
    i: int,
    j: int,
) -> Seq<ValueView> {
    rows[i * width + j]
}

/// An inner join whose condition holds of every pair of rows is the Cartesian
/// product: each outer row in turn with each inner row in turn.
pub proof fn lemma_inner_join_product<E>(
    outer: Seq<Seq<ValueView>>,
    inner: Seq<Seq<ValueView>>,
    verdicts: Seq<Seq<Result<bool, E>>>,
    left_width: nat,
    right_width: nat,
    n: nat,
)
    requires
        n <= outer.len(),
        n <= verdicts.len(),
        forall|i: int| 0 <= i < n ==> (#[trigger] verdicts[i]).len() == inner.len(),
        forall|i: int, j: int|
            0 <= i < n && 0 <= j < inner.len() ==> (#[trigger] verdicts[i][j]) == Ok::<bool, E>(
                true,
            ),
    ensures
        join_first(JoinKind::Inner, outer, inner, verdicts, left_width, right_width, n) is Ok,
        join_first(JoinKind::Inner, outer, inner, verdicts, left_width, right_width, n)->Ok_0.len()
            == n * inner.len(),
        forall|i: int, j: int|
            0 <= i < n && 0 <= j < inner.len() ==> #[trigger] pair_at(
                join_first(
                    JoinKind::Inner,
                    outer,
                    inner,
                    verdicts,
                    left_width,
                    right_width,
                    n,
                )->Ok_0,
                inner.len(),
                i,
                j,
            ) == outer[i] + inner[j],
    decreases n,
{
    let w = inner.len() as int;
    if n > 0 {
        lemma_inner_join_product(outer, inner, verdicts, left_width, right_width, (n - 1) as nat);
        let before = join_first(
            JoinKind::Inner,
            outer,
            inner,
            verdicts,
            left_width,
            right_width,
            (n - 1) as nat,
        )->Ok_0;
        let cands = candidates(JoinKind::Inner, outer[n - 1], inner);
        let v = verdicts[n - 1];
        assert forall|j: int| 0 <= j < w implies #[trigger] v[j] == Ok::<bool, E>(true) by {
            assert(verdicts[n - 1][j] == Ok::<bool, E>(true));
        }
        lemma_filter_all(cands, v, inner.len());
        assert(cands.take(w) =~= cands);
        let more = joined_row(JoinKind::Inner, outer[n - 1], inner, v, left_width, right_width)->Ok_0;
        assert(more =~= cands);
        let rows = join_first(
            JoinKind::Inner,
            outer,
            inner,
            verdicts,
            left_width,
            right_width,
            n,
        )->Ok_0;
        assert(rows == before + more);
        assert((n - 1) * w + w == n * w) by (nonlinear_arith);
        assert(before.len() == (n - 1) * w);
        assert forall|i: int, j: int| 0 <= i < n && 0 <= j < inner.len() implies #[trigger] pair_at(
            rows,
            inner.len(),
            i,
            j,
        ) == outer[i] + inner[j] by {
            let k = i * w + j;
            if i < n - 1 {
                assert(0 <= i * w + j < (n - 1) * w) by (nonlinear_arith)
                    requires
                        0 <= i < n - 1,
                        0 <= j < w,
                ;
                assert(pair_at(before, inner.len(), i, j) == outer[i] + inner[j]);
                assert(rows[k] == before[k]);
            } else {
                assert(k == (n - 1) * w + j);
                assert(0 <= (n - 1) * w) by (nonlinear_arith)
                    requires
                        n >= 1,
                        w >= 0,
                ;
                assert(rows[k] == more[j]);
                assert(cands[j] == outer[n - 1] + inner[j]);
            }
        }
    } else {
        assert(0 * w == 0);
    }
}

/// Whether `start` is the beginning of one of the rows.
pub open spec fn begins_a_row(rows: Seq<Seq<ValueView>>, start: Seq<ValueView>) -> bool {
    exists|k: int| 0 <= k < rows.len() && (#[trigger] rows[k]).take(start.len() as int) == start
}

/// A left join emits every row of the left table at least once: each outer row is the
/// beginning of a row of the result.
pub proof fn lemma_left_join_keeps_left<E>(
    outer: Seq<Seq<ValueView>>,
    inner: Seq<Seq<ValueView>>,
    verdicts: Seq<Seq<Result<bool, E>>>,
    left_width: nat,
    right_width: nat,
    n: nat,
)
    requires
        n <= outer.len(),
        join_first(JoinKind::Left, outer, inner, verdicts, left_width, right_width, n) is Ok,
    ensures
        forall|i: int|
            0 <= i < n ==> begins_a_row(
                join_first(
                    JoinKind::Left,
                    outer,
                    inner,
                    verdicts,
                    left_width,
                    right_width,
                    n,
                )->Ok_0,
                #[trigger] outer[i],
            ),
    decreases n,
{
    if n > 0 {
        let kind = JoinKind::Left;
        lemma_left_join_keeps_left(outer, inner, verdicts, left_width, right_width, (n - 1) as nat);
        let before = join_first(
            kind,
            outer,
            inner,
            verdicts,
            left_width,
            right_width,
            (n - 1) as nat,
        )->Ok_0;
        let more = joined_row(
            kind,
            outer[n - 1],
            inner,
            verdicts[n - 1],
            left_width,
            right_width,
        )->Ok_0;
        let rows = join_first(kind, outer, inner, verdicts, left_width, right_width, n)->Ok_0;
        assert(rows == before + more);
        let o = outer[n - 1];
        let cands = candidates(kind, o, inner);
        let found = filter_by(cands, verdicts[n - 1])->Ok_0;
        assert(more.len() > 0 && more[0].take(o.len() as int) == o) by {
            if found.len() == 0 {
                assert((o + nulls(right_width)).take(o.len() as int) =~= o);
            } else {
                lemma_filter_first(cands, verdicts[n - 1], cands.len());
                let j = choose|j: int| 0 <= j < cands.len() && found[0] == cands[j];
                assert((o + inner[j]).take(o.len() as int) =~= o);
            }
        }
        assert forall|i: int| 0 <= i < n implies begins_a_row(rows, #[trigger] outer[i]) by {
            if i < n - 1 {
                assert(begins_a_row(before, outer[i]));
                let k = choose|k: int|
                    0 <= k < before.len() && (#[trigger] before[k]).take(outer[i].len() as int)
                        == outer[i];
                assert(rows[k] == before[k]);
            } else {
                assert(rows[before.len() as int] == more[0]);
            }
        }
    }
}

/// A row with its first `width` values moved behind the others.
pub open spec fn rotated(row: Seq<ValueView>, width: nat) -> Seq<ValueView> {
    row.skip(width as int) + row.take(width as int)
}

/// A right join of L with R is, row for row, the left join of R with L with the two
/// sides of each row exchanged, where the condition gives the same verdict on a pair
/// of rows in whichever order the two stand.
pub proof fn lemma_right_join_mirrors_left<E>(
    outer: Seq<Seq<ValueView>>,
    inner: Seq<Seq<ValueView>>,
    verdicts: Seq<Seq<Result<bool, E>>>,
    inner_width: nat,
    outer_width: nat,
    n: nat,
)
    requires
        n <= outer.len(),
        forall|i: int| 0 <= i < outer.len() ==> (#[trigger] outer[i]).len() == outer_width,
    ensures
        match (
            join_first(JoinKind::Right, outer, inner, verdicts, inner_width, outer_width, n),
            join_first(JoinKind::Left, outer, inner, verdicts, outer_width, inner_width, n),
        ) {
            (Ok(right), Ok(left)) => right.len() == left.len() && forall|k: int|
                0 <= k < left.len() ==> #[trigger] right[k] == rotated(left[k], outer_width),
            (Err(e1), Err(e2)) => e1 == e2,
            _ => false,
        },
    decreases n,
{
    if n > 0 {
        lemma_right_join_mirrors_left(outer, inner, verdicts, inner_width, outer_width, (n - 1) as nat);
        let o = outer[n - 1];
        let v = verdicts[n - 1];
        let rc = candidates(JoinKind::Right, o, inner);
        let lc = candidates(JoinKind::Left, o, inner);
        assert forall|j: int| 0 <= j < inner.len() implies #[trigger] rc[j] == rotated(
            lc[j],
            outer_width,
        ) by {
            assert((o + inner[j]).skip(outer_width as int) =~= inner[j]);
            assert((o + inner[j]).take(outer_width as int) =~= o);
        }
        lemma_filter_mirrors(rc, lc, v, outer_width, inner.len());
        assert((o + nulls(inner_width)).skip(outer_width as int) =~= nulls(inner_width));
        assert((o + nulls(inner_width)).take(outer_width as int) =~= o);
    }
}

proof fn lemma_filter_mirrors<E>(
    rc: Seq<Seq<ValueView>>,
    lc: Seq<Seq<ValueView>>,
    verdicts: Seq<Result<bool, E>>,
    width: nat,
    n: nat,
)
    requires
        n <= rc.len(),
        rc.len() == lc.len(),
        forall|j: int| 0 <= j < rc.len() ==> #[trigger] rc[j] == rotated(lc[j], width),
    ensures
        match (filter_first(rc, verdicts, n), filter_first(lc, verdicts, n)) {
            (Ok(right), Ok(left)) => right.len() == left.len() && forall|k: int|
                0 <= k < left.len() ==> #[trigger] right[k] == rotated(left[k], width),
            (Err(e1), Err(e2)) => e1 == e2,
            _ => false,
        },
    decreases n,
{
    if n > 0 {
        lemma_filter_mirrors(rc, lc, verdicts, width, (n - 1) as nat);
    }
}

/// A join fails where the matches of an outer row fail and those of no outer row
/// before it do.
pub proof fn lemma_join_fails<E>(
    kind: JoinKind,
    outer: Seq<Seq<ValueView>>,
    inner: Seq<Seq<ValueView>>,
    verdicts: Seq<Seq<Result<bool, E>>>,
    left_width: nat,
    right_width: nat,
    i: int,
    n: nat,
)
    requires
        0 <= i,
        join_first(kind, outer, inner, verdicts, left_width, right_width, i as nat) is Ok,
        joined_row(kind, outer[i], inner, verdicts[i], left_width, right_width) is Err,
    ensures
        n > i ==> join_first(kind, outer, inner, verdicts, left_width, right_width, n) == Err::<
            Seq<Seq<ValueView>>,
            E,
        >(joined_row(kind, outer[i], inner, verdicts[i], left_width, right_width)->Err_0),
    decreases n,
{
    if n > i + 1 {
        lemma_join_fails(kind, outer, inner, verdicts, left_width, right_width, i, (n - 1) as nat);
    }
}

/// A filter fails with the first verdict that is an error.
pub proof fn lemma_filter_fails<T, E>(rows: Seq<T>, verdicts: Seq<Result<bool, E>>, i: int)
    requires
        0 <= i < rows.len(),
        verdicts[i] is Err,
        forall|j: int| 0 <= j < i ==> (#[trigger] verdicts[j]) is Ok,
        verdicts.len() == rows.len(),
    ensures
        filter_by(rows, verdicts) == Err::<Seq<T>, E>(verdicts[i]->Err_0),
{
    lemma_filter_fails_first(rows, verdicts, i, rows.len());
}

proof fn lemma_filter_fails_first<T, E>(
    rows: Seq<T>,
    verdicts: Seq<Result<bool, E>>,
    i: int,
    n: nat,
)
    requires
        0 <= i,
        verdicts[i] is Err,
        forall|j: int| 0 <= j < i ==> (#[trigger] verdicts[j]) is Ok,
    ensures
        n <= i ==> filter_first(rows, verdicts, n) is Ok,
        n > i ==> filter_first(rows, verdicts, n) == Err::<Seq<T>, E>(verdicts[i]->Err_0),
    decreases n,
{
    if n > 0 {
        lemma_filter_fails_first(rows, verdicts, i, (n - 1) as nat);
    }
}

} // verus!
