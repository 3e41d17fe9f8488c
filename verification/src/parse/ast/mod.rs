//! The syntax tree of a query. Every node owns its text, so a tree outlives the
//! source it was parsed from.

pub mod view;

use crate::data::datatype::Datatype;
use vstd::prelude::*;

verus! {

/// A table name, a column name or an alias.
#[derive(Debug)]
pub struct Identifier(pub String);

/// A literal value: a quoted string, a number or `true` / `false`.
#[derive(Debug)]
pub enum Literal {
    String(String),
    Number(u32),
    Boolean(bool),
}

/// Names a column, or all columns, of a table that is already given.
#[derive(Debug)]
pub enum Column {
    Star,
    Ident(Identifier),
}

/// A column reference `name` or `scope.name`; `name` may be `*`.
#[derive(Debug)]
pub struct ColumnIdentifier {
    pub alias: Option<Identifier>,
    pub name: Column,
}

/// A table name with an optional alias.
#[derive(Debug)]
pub struct TableIdentifier {
    pub name: Identifier,
    pub alias: Option<Identifier>,
}

/// The binary operators of expressions.
#[derive(Debug, Clone, Copy, PartialEq, Eq, Structural)]
pub enum ExpressionOp {
    GreaterEqual,
    LessEqual,
    Greater,
    Less,
    And,
    Or,
    In,
    Equal,
    Plus,
    Minus,
}

/// An operator applied to two operands.
#[derive(Debug)]
pub struct BinaryOp {
    pub op: ExpressionOp,
    pub left: Box<Expression>,
    pub right: Box<Expression>,
}

/// An expression that can be evaluated against a row.
#[derive(Debug)]
pub enum Expression {
    /// `count(*)`, the one aggregate.
    CountStar,
    Literal(Literal),
    ColumnIdentifier(ColumnIdentifier),
    BinaryOp(BinaryOp),
    Subquery(Box<SelectQuery>),
}

/// The three kinds of join.
#[derive(Debug, Clone, Copy, PartialEq, Eq, Structural)]
pub enum JoinKind {
    Inner,
    Left,
    Right,
}

/// One joined table with its condition.
#[derive(Debug)]
pub struct Join {
    pub kind: JoinKind,
    pub table: TableIdentifier,
    pub condition: Expression,
}

/// The `from` part of a select query: a root table and the tables joined to it.
#[derive(Debug)]
pub struct TableExpression {
    pub root_table: TableIdentifier,
    pub joins: Vec<Join>,
}

/// The direction of a sort.
#[derive(Debug, Clone, Copy, PartialEq, Eq, Structural)]
pub enum OrderByDirection {
    Asc,
    Desc,
}

/// The `order by` part of a select query.
#[derive(Debug)]
pub struct OrderBy {
    pub expr: Expression,
    pub direction: OrderByDirection,
}

/// A read query.
#[derive(Debug)]
pub struct SelectQuery {
    pub select_list: Vec<Expression>,
    pub table: TableExpression,
    pub filter: Option<Expression>,
    pub sort: Option<OrderBy>,
    pub limit: Option<Expression>,
}

/// Appends one row to a table.
#[derive(Debug)]
pub struct InsertQuery {
    pub table: Identifier,
    pub columns: Vec<Identifier>,
    pub values: Vec<Literal>,
}

/// One column of a table that is being created.
#[derive(Debug)]
pub struct CreateTableColumn {
    pub name: Identifier,
    pub datatype: Datatype,
}

/// Creates a table.
#[derive(Debug)]
pub struct CreateTableQuery {
    pub table_name: Identifier,
    pub columns: Vec<CreateTableColumn>,
}

/// `column = literal` in an update query.
#[derive(Debug)]
pub struct Assignment {
    pub column: Identifier,
    pub value: Literal,
}

/// Rewrites slots of the rows that satisfy a condition.
#[derive(Debug)]
pub struct UpdateQuery {
    pub table: Identifier,
    pub assignments: Vec<Assignment>,
    pub filter: Expression,
}

/// A single query.
#[derive(Debug)]
pub enum Query {
    SelectQuery(SelectQuery),
    InsertQuery(InsertQuery),
    CreateTableQuery(CreateTableQuery),
    UpdateQuery(UpdateQuery),
}

/// The queries of one source text, in source order.
#[derive(Debug)]
pub struct Queries(pub Vec<Query>);

impl Column {
    /// The text of this column name: `*`, or the identifier.
    pub open spec fn text(&self) -> Seq<char> {
        match self {
            Column::Star => "*"@,
            Column::Ident(i) => i.0@,
        }
    }

    /// The text of this column name: `*`, or the identifier.
    pub fn as_string(&self) -> (s: String)
        ensures
            s@ == self.text(),
    {
        match self {
            Column::Star => String::from_str("*"),
            Column::Ident(i) => i.0.clone(),
        }
    }
}

impl ColumnIdentifier {
    /// The text of this column reference: `name`, or `scope.name`.
    pub open spec fn text(&self) -> Seq<char> {
        match self.alias {
            None => self.name.text(),
            Some(a) => a.0@ + "."@ + self.name.text(),
        }
    }

    /// The text of this column reference: `name`, or `scope.name`.
    pub fn as_string(&self) -> (s: String)
        ensures
            s@ == self.text(),
    {
        match &self.alias {
            None => self.name.as_string(),
            Some(a) => {
                let mut s = a.0.clone();
                s.append(".");
                s.append(self.name.as_string().as_str());
                s
            },
        }
    }
}

impl TableIdentifier {
    /// The scope of this table in a query: its alias if it has one, else its name.
    pub open spec fn scope(&self) -> Seq<char> {
        match self.alias {
            Some(a) => a.0@,
            None => self.name.0@,
        }
    }

    /// The scope of this table in a query: its alias if it has one, else its name.
    pub fn as_str(&self) -> (s: &str)
        ensures
            s@ == self.scope(),
    {
        match &self.alias {
            Some(i) => i.0.as_str(),
            None => self.name.0.as_str(),
        }
    }
}

impl Default for OrderByDirection {
    fn default() -> (d: OrderByDirection)
        ensures
            d == OrderByDirection::Asc,
    {
        OrderByDirection::Asc
    }
}

} // verus!
