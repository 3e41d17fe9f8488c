use crate::data::column::columns_view;
use crate::data::column::Column as TableColumn;
use crate::data::column::ColumnView;
use crate::data::database::Database;
use crate::data::row::Row;
use crate::data::table::Table;
use crate::data::value::Value;
use crate::data::value_list::ValueList;
use crate::data::database::DatabaseView;
use crate::data::value::value_op;
use crate::data::value::ValueView;
use crate::execute::select::select_result;
use crate::execute::select::Error;
use crate::parse::ast::Column;
use crate::parse::ast::ColumnIdentifier;
use crate::parse::ast::Expression;
use crate::parse::ast::ExpressionOp;
use crate::parse::ast::Identifier;
use crate::parse::ast::Literal;
use crate::text::field_of;
use crate::text::scope_of;
use vstd::prelude::*;

verus! {

/// The kind of a value, as named in a type error.
#[derive(Clone, Copy, Debug, PartialEq, Eq, Structural)]
pub enum ValueKind {
    Null,
    Number,
    Text,
    Boolean,
    List,
}

/// Why an expression could not be evaluated.
#[derive(Clone, Copy, Debug, PartialEq, Eq, Structural)]
pub enum EvaluationError {
    /// An operator met operands of kinds that it does not take.
    TypeMismatch { op: ExpressionOp, left: ValueKind, right: ValueKind },
    /// A condition gave a value that is no boolean.
    NonBoolean,
    /// A limit gave a value that is no number.
    NonNumber,
    /// A column was referred to where there is no row.
    NullReference,
    /// A subquery did not return exactly one column.
    SubqueryShape,
    /// The result of an addition, a subtraction or a count does not fit a number.
    Overflow,
    /// `count(*)`, `*` or a subquery stands where no value can be computed for it.
    Unsupported,
}

/// The message of an evaluation error.
pub open spec fn evaluation_error_text(error: EvaluationError) -> Seq<char> {
    match error {
        EvaluationError::TypeMismatch { .. } => "An operator does not take operands of these kinds"@,
        EvaluationError::NonBoolean => "A condition gave a value that is no boolean"@,
        EvaluationError::NonNumber => "A limit gave a value that is no number"@,
        EvaluationError::NullReference => "A column is referred to where there is no row"@,
        EvaluationError::SubqueryShape => "A subquery has to return exactly one column"@,
        EvaluationError::Overflow => "A number is out of range"@,
        EvaluationError::Unsupported => "An expression stands where it has no value"@,
    }
}

impl EvaluationError {
    /// The message of this error.
    pub fn to_string(&self) -> (s: String)
        ensures
            s@ == evaluation_error_text(*self),
    {
        match self {
            EvaluationError::TypeMismatch { .. } => String::from_str(
                "An operator does not take operands of these kinds",
            ),
            EvaluationError::NonBoolean => String::from_str(
                "A condition gave a value that is no boolean",
            ),
            EvaluationError::NonNumber => String::from_str("A limit gave a value that is no number"),
            EvaluationError::NullReference => String::from_str(
                "A column is referred to where there is no row",
            ),
            EvaluationError::SubqueryShape => String::from_str(
                "A subquery has to return exactly one column",
            ),
            EvaluationError::Overflow => String::from_str("A number is out of range"),
            EvaluationError::Unsupported => String::from_str(
                "An expression stands where it has no value",
            ),
        }
    }
}

/// The columns and the values of the row that an expression is evaluated against.
pub type RowContextView = (Seq<ColumnView>, Seq<ValueView>);

/// The value of a literal.
pub open spec fn literal_value(literal: Literal) -> ValueView {
    match literal {
        Literal::String(s) => ValueView::Text(s@),
        Literal::Number(n) => ValueView::Number(n),
        Literal::Boolean(b) => ValueView::Boolean(b),
    }
}

/// The text of an optional identifier.
pub open spec fn opt_text(identifier: Option<Identifier>) -> Option<Seq<char>> {
    match identifier {
        Some(i) => Some(i.0@),
        None => None,
    }
}

/// Whether a column name has the given field and, where one is asked for, the given
/// scope.
pub open spec fn name_matches(name: Seq<char>, scope: Option<Seq<char>>, field: Seq<char>) -> bool {
    &&& field_of(name) == field
    &&& scope matches Some(s) ==> scope_of(name) == Some(s)
}

/// Whether a column is among those that `*` or `scope.*` stands for.
pub open spec fn star_matches(column: ColumnView, identifier: ColumnIdentifier) -> bool {
    identifier.alias matches Some(s) ==> scope_of(column.name) == Some(s.0@)
}

/// Whether a column is one that the identifier may refer to.
pub open spec fn is_candidate(column: ColumnView, identifier: ColumnIdentifier) -> bool {
    match identifier.name {
        Column::Star => false,
        Column::Ident(field) => name_matches(column.name, opt_text(identifier.alias), field.0@),
    }
}

/// The index of the one column that the identifier refers to. With no such column
/// the column is unknown, with several it is ambiguous, and `*` refers to no single
/// column.
#[verifier::opaque]
pub open spec fn resolve(columns: Seq<ColumnView>, identifier: ColumnIdentifier) -> Result<
    int,
    Error,
> {
    if identifier.name is Star {
        Err(Error::Evaluation(EvaluationError::Unsupported))
    } else if forall|i: int|
        0 <= i < columns.len() ==> !is_candidate(#[trigger] columns[i], identifier) {
        Err(Error::UnknownColumn)
    } else if exists|i: int, j: int|
        0 <= i < j < columns.len() && is_candidate(#[trigger] columns[i], identifier)
            && is_candidate(#[trigger] columns[j], identifier) {
        Err(Error::AmbiguousColumn)
    } else {
        Ok(choose|i: int| 0 <= i < columns.len() && is_candidate(#[trigger] columns[i], identifier))
    }
}

/// The first value of each row.
pub open spec fn first_values(rows: Seq<Seq<ValueView>>) -> Seq<ValueView> {
    Seq::new(rows.len(), |i: int| rows[i][0])
}

/// The value of an expression against a row, if one is given, and a database, if one
/// is given.
#[verifier::opaque]
pub open spec fn eval(
    expr: Expression,
    row: Option<RowContextView>,
    database: Option<DatabaseView>,
) -> Result<ValueView, Error>
    decreases expr, 0nat,
{
    match expr {
        Expression::CountStar => Err(Error::Evaluation(EvaluationError::Unsupported)),
        Expression::Literal(l) => Ok(literal_value(l)),
        Expression::ColumnIdentifier(i) => match row {
            None => Err(Error::Evaluation(EvaluationError::NullReference)),
            Some(r) => match resolve(r.0, i) {
                Ok(idx) => Ok(r.1[idx]),
                Err(e) => Err(e),
            },
        },
        Expression::Subquery(q) => match database {
            None => Err(Error::Evaluation(EvaluationError::Unsupported)),
            Some(db) => match select_result(*q, db) {
                Err(e) => Err(e),
                Ok(t) => if t.columns.len() == 1 {
                    Ok(ValueView::List(first_values(t.rows)))
                } else {
                    Err(Error::Evaluation(EvaluationError::SubqueryShape))
                },
            },
        },
        Expression::BinaryOp(b) => match eval(*b.left, row, database) {
            Err(e) => Err(e),
            Ok(l) => match eval(*b.right, row, database) {
                Err(e) => Err(e),
                Ok(r) => match value_op(l, b.op, r) {
                    Ok(v) => Ok(v),
                    Err(e) => Err(Error::Evaluation(e)),
                },
            },
        },
    }
}

/// The boolean of a condition's value; a value that is no boolean is an error.
pub open spec fn verdict(value: Result<ValueView, Error>) -> Result<bool, Error> {
    match value {
        Ok(ValueView::Boolean(b)) => Ok(b),
        Ok(_) => Err(Error::Evaluation(EvaluationError::NonBoolean)),
        Err(e) => Err(e),
    }
}

/// The values of an expression against each of the rows.
pub open spec fn eval_rows(
    expr: Expression,
    columns: Seq<ColumnView>,
    rows: Seq<Seq<ValueView>>,
    database: Option<DatabaseView>,
) -> Seq<Result<ValueView, Error>>
    decreases expr, 1nat,
{
    Seq::new(rows.len(), |i: int| eval(expr, Some((columns, rows[i])), database))
}

/// The verdicts of a condition on each of the rows.
pub open spec fn verdicts(
    expr: Expression,
    columns: Seq<ColumnView>,
    rows: Seq<Seq<ValueView>>,
    database: Option<DatabaseView>,
) -> Seq<Result<bool, Error>>
    decreases expr, 1nat,
{
    Seq::new(rows.len(), |i: int| verdict(eval(expr, Some((columns, rows[i])), database)))
}

/// The columns and the row that an expression is evaluated against.
pub type RowEvaluationContext<'table> = (&'table Vec<TableColumn>, &'table Row);

/// What a row context stands for.
pub open spec fn context_view(row_ctx: Option<RowEvaluationContext>) -> Option<RowContextView> {
    match row_ctx {
        Some(c) => Some((columns_view(c.0@), c.1@)),
        None => None,
    }
}

/// What an optional database stands for.
pub open spec fn database_view(database: Option<&Database>) -> Option<DatabaseView> {
    match database {
        Some(db) => Some(db@),
        None => None,
    }
}

/// What the result of an evaluation stands for.
pub open spec fn value_view(res: Result<Value, Error>) -> Result<ValueView, Error> {
    match res {
        Ok(v) => Ok(v@),
        Err(e) => Err(e),
    }
}

impl Literal {
    /// The value of this literal.
    pub fn to_value(&self) -> (v: Value)
        ensures
            v@ == literal_value(*self),
    {
        match self {
            Literal::String(s) => Value::Text(s.clone()),
            Literal::Number(n) => Value::Number(*n),
            Literal::Boolean(b) => Value::Boolean(*b),
        }
    }
}

/// Evaluates an expression against a row, if one is given, and a database, if one is
/// given.
///
/// A literal gives its value and a column reference the value under the column it
/// resolves to. A subquery gives the list of the values of the one column of its
/// result. An operator is applied to the values of both operands, the left one first.
/// `count(*)` has no value of its own.
pub fn evaluate(
    expr: &Expression,
    row_ctx: Option<RowEvaluationContext>,
    database: Option<&Database>,
) -> (res: Result<Value, Error>)
    requires
        row_ctx matches Some(c) ==> c.1@.len() == c.0@.len(),
        database matches Some(db) ==> db.wf(),
    ensures
        value_view(res) == eval(*expr, context_view(row_ctx), database_view(database)),
    decreases expr, 0nat,
{
    proof {
        reveal(eval);
    }
    match expr {
        Expression::CountStar => Err(Error::Evaluation(EvaluationError::Unsupported)),
        Expression::Literal(l) => Ok(l.to_value()),
        Expression::ColumnIdentifier(i) => match row_ctx {
            None => Err(Error::Evaluation(EvaluationError::NullReference)),
            Some(c) => match Table::get_column_idx(c.0, i) {
                Ok(idx) => Ok(c.1.0[idx].clone()),
                Err(e) => Err(e),
            },
        },
        Expression::Subquery(q) => match database {
            None => Err(Error::Evaluation(EvaluationError::Unsupported)),
            Some(db) => match db.execute_select(q) {
                Err(e) => Err(e),
                Ok(t) => if t.columns.len() == 1 {
                    Ok(Value::List(ValueList::from_table(&t)))
                } else {
                    Err(Error::Evaluation(EvaluationError::SubqueryShape))
                },
            },
        },
        Expression::BinaryOp(b) => match evaluate(&b.left, row_ctx, database) {
            Err(e) => Err(e),
            Ok(l) => match evaluate(&b.right, row_ctx, database) {
                Err(e) => Err(e),
                Ok(r) => match l.op(b.op, r) {
                    Ok(v) => Ok(v),
                    Err(e) => Err(Error::Evaluation(e)),
                },
            },
        },
    }
}

} // verus!
