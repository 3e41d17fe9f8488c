//! What the syntax tree stands for: the same tree over plain texts and sequences.

use crate::data::column::ColumnView;
use crate::data::value::ValueView;
use crate::execute::evaluate::literal_value;
use crate::execute::evaluate::opt_text;
use crate::parse::ast::Assignment;
use crate::parse::ast::Column;
use crate::parse::ast::ColumnIdentifier;
use crate::parse::ast::CreateTableColumn;
use crate::parse::ast::CreateTableQuery;
use crate::parse::ast::Expression;
use crate::parse::ast::ExpressionOp;
use crate::parse::ast::Identifier;
use crate::parse::ast::InsertQuery;
use crate::parse::ast::Join;
use crate::parse::ast::JoinKind;
use crate::parse::ast::Literal;
use crate::parse::ast::OrderBy;
use crate::parse::ast::OrderByDirection;
use crate::parse::ast::Queries;
use crate::parse::ast::Query;
use crate::parse::ast::SelectQuery;
use crate::parse::ast::TableIdentifier;
use crate::parse::ast::UpdateQuery;
use vstd::prelude::*;

verus! {

/// A column reference: an optional scope, and a name or, with `None`, `*`.
pub struct ColumnIdentifierView {
    pub alias: Option<Seq<char>>,
    pub name: Option<Seq<char>>,
}

/// A table name with an optional alias.
pub struct TableIdentifierView {
    pub name: Seq<char>,
    pub alias: Option<Seq<char>>,
}

/// An expression.
pub enum ExpressionView {
    CountStar,
    Literal(ValueView),
    ColumnIdentifier(ColumnIdentifierView),
    BinaryOp { op: ExpressionOp, left: Box<ExpressionView>, right: Box<ExpressionView> },
    Subquery(Box<SelectQueryView>),
}

/// One joined table with its condition.
pub struct JoinView {
    pub kind: JoinKind,
    pub table: TableIdentifierView,
    pub condition: ExpressionView,
}

/// The `order by` part of a select query.
pub struct OrderByView {
    pub expr: ExpressionView,
    pub direction: OrderByDirection,
}

/// A select query.
pub struct SelectQueryView {
    pub select_list: Seq<ExpressionView>,
    pub root_table: TableIdentifierView,
    pub joins: Seq<JoinView>,
    pub filter: Option<ExpressionView>,
    pub sort: Option<OrderByView>,
    pub limit: Option<ExpressionView>,
}

/// An insert query.
pub struct InsertQueryView {
    pub table: Seq<char>,
    pub columns: Seq<Seq<char>>,
    pub values: Seq<ValueView>,
}

/// A create table query.
pub struct CreateTableQueryView {
    pub table_name: Seq<char>,
    pub columns: Seq<ColumnView>,
}

/// One assignment of an update query.
pub struct AssignmentView {
    pub column: Seq<char>,
    pub value: ValueView,
}

/// An update query.
pub struct UpdateQueryView {
    pub table: Seq<char>,
    pub assignments: Seq<AssignmentView>,
    pub filter: ExpressionView,
}

/// A query.
pub enum QueryView {
    Select(SelectQueryView),
    Insert(InsertQueryView),
    CreateTable(CreateTableQueryView),
    Update(UpdateQueryView),
}

impl View for Identifier {
    type V = Seq<char>;

    open spec fn view(&self) -> Seq<char> {
        self.0@
    }
}

impl View for Literal {
    type V = ValueView;

    open spec fn view(&self) -> ValueView {
        literal_value(*self)
    }
}

impl View for ColumnIdentifier {
    type V = ColumnIdentifierView;

    open spec fn view(&self) -> ColumnIdentifierView {
        ColumnIdentifierView {
            alias: opt_text(self.alias),
            name: match self.name {
                Column::Star => None,
                Column::Ident(i) => Some(i.0@),
            },
        }
    }
}

impl View for TableIdentifier {
    type V = TableIdentifierView;

    open spec fn view(&self) -> TableIdentifierView {
        TableIdentifierView { name: self.name.0@, alias: opt_text(self.alias) }
    }
}

/// The views of a sequence of expressions.
pub open spec fn expressions_view(list: Seq<Expression>) -> Seq<ExpressionView>
    decreases list,
{
    Seq::new(
        list.len(),
        |i: int|
            if 0 <= i < list.len() {
                expression_view(list[i])
            } else {
                ExpressionView::CountStar
            },
    )
}

/// The views of a sequence of joins.
pub open spec fn joins_view(joins: Seq<Join>) -> Seq<JoinView>
    decreases joins,
{
    Seq::new(
        joins.len(),
        |i: int|
            if 0 <= i < joins.len() {
                join_view(joins[i])
            } else {
                arbitrary()
            },
    )
}

/// What an expression stands for.
pub open spec fn expression_view(expr: Expression) -> ExpressionView
    decreases expr,
{
    match expr {
        Expression::CountStar => ExpressionView::CountStar,
        Expression::Literal(l) => ExpressionView::Literal(literal_value(l)),
        Expression::ColumnIdentifier(i) => ExpressionView::ColumnIdentifier(i@),
        Expression::BinaryOp(b) => ExpressionView::BinaryOp {
            op: b.op,
            left: Box::new(expression_view(*b.left)),
            right: Box::new(expression_view(*b.right)),
        },
        Expression::Subquery(q) => ExpressionView::Subquery(Box::new(select_view(*q))),
    }
}

/// What a join stands for.
pub open spec fn join_view(join: Join) -> JoinView
    decreases join,
{
    JoinView { kind: join.kind, table: join.table@, condition: expression_view(join.condition) }
}

/// What an optional expression stands for.
pub open spec fn optional_expression_view(expr: Option<Expression>) -> Option<ExpressionView>
    decreases expr,
{
    match expr {
        Some(e) => Some(expression_view(e)),
        None => None,
    }
}

/// What an optional `order by` stands for.
pub open spec fn optional_order_view(sort: Option<OrderBy>) -> Option<OrderByView>
    decreases sort,
{
    match sort {
        Some(s) => Some(OrderByView { expr: expression_view(s.expr), direction: s.direction }),
        None => None,
    }
}

/// What a select query stands for.
pub open spec fn select_view(query: SelectQuery) -> SelectQueryView
    decreases query,
{
    SelectQueryView {
        select_list: expressions_view(query.select_list@),
        root_table: query.table.root_table@,
        joins: joins_view(query.table.joins@),
        filter: optional_expression_view(query.filter),
        sort: optional_order_view(query.sort),
        limit: optional_expression_view(query.limit),
    }
}

impl View for Expression {
    type V = ExpressionView;

    open spec fn view(&self) -> ExpressionView {
        expression_view(*self)
    }
}

impl View for Join {
    type V = JoinView;

    open spec fn view(&self) -> JoinView {
        join_view(*self)
    }
}

impl View for SelectQuery {
    type V = SelectQueryView;

    open spec fn view(&self) -> SelectQueryView {
        select_view(*self)
    }
}

impl View for InsertQuery {
    type V = InsertQueryView;

    open spec fn view(&self) -> InsertQueryView {
        InsertQueryView {
            table: self.table.0@,
            columns: Seq::new(self.columns@.len(), |i: int| self.columns@[i].0@),
            values: Seq::new(self.values@.len(), |i: int| literal_value(self.values@[i])),
        }
    }
}

impl View for CreateTableColumn {
    type V = ColumnView;

    open spec fn view(&self) -> ColumnView {
        ColumnView { name: self.name.0@, datatype: self.datatype }
    }
}

impl View for CreateTableQuery {
    type V = CreateTableQueryView;

    open spec fn view(&self) -> CreateTableQueryView {
        CreateTableQueryView {
            table_name: self.table_name.0@,
            columns: Seq::new(self.columns@.len(), |i: int| self.columns@[i]@),
        }
    }
}

impl View for Assignment {
    type V = AssignmentView;

    open spec fn view(&self) -> AssignmentView {
        AssignmentView { column: self.column.0@, value: literal_value(self.value) }
    }
}

impl View for UpdateQuery {
    type V = UpdateQueryView;

    open spec fn view(&self) -> UpdateQueryView {
        UpdateQueryView {
            table: self.table.0@,
            assignments: Seq::new(self.assignments@.len(), |i: int| self.assignments@[i]@),
            filter: self.filter@,
        }
    }
}

impl View for Query {
    type V = QueryView;

    open spec fn view(&self) -> QueryView {
        match self {
            Query::SelectQuery(q) => QueryView::Select(q@),
            Query::InsertQuery(q) => QueryView::Insert(q@),
            Query::CreateTableQuery(q) => QueryView::CreateTable(q@),
            Query::UpdateQuery(q) => QueryView::Update(q@),
        }
    }
}

impl View for Queries {
    type V = Seq<QueryView>;

    open spec fn view(&self) -> Seq<QueryView> {
        Seq::new(self.0@.len(), |i: int| self.0@[i]@)
    }
}

} // verus!
