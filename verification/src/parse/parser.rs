//! From the tokens of a text to its syntax tree.

use crate::data::datatype::Datatype;
use crate::parse::ast::view::expressions_view;
use crate::parse::ast::view::join_view;
use crate::parse::ast::view::joins_view;
use crate::parse::ast::view::ExpressionView;
use crate::parse::ast::view::JoinView;
use crate::parse::ast::view::OrderByView;
use crate::parse::ast::view::QueryView;
use crate::parse::ast::Assignment;
use crate::parse::ast::BinaryOp;
use crate::parse::ast::Column;
use crate::parse::ast::ColumnIdentifier;
use crate::parse::ast::CreateTableColumn;
use crate::parse::ast::CreateTableQuery;
use crate::parse::ast::Expression;
use crate::parse::ast::ExpressionOp;
use crate::parse::ast::Identifier;
use crate::parse::ast::InsertQuery;
use crate::parse::ast::Join;
use crate::parse::ast::JoinKind;
use crate::parse::ast::Literal;
use crate::parse::ast::OrderBy;
use crate::parse::ast::OrderByDirection;
use crate::parse::ast::Queries;
use crate::parse::ast::Query;
use crate::parse::ast::SelectQuery;
use crate::parse::ast::TableExpression;
use crate::parse::ast::TableIdentifier;
use crate::parse::ast::UpdateQuery;
use crate::parse::grammar;
use crate::parse::grammar::advances;
use crate::parse::grammar::is_keyword;
use crate::parse::grammar::is_symbol;
use crate::parse::grammar::rest;
use crate::parse::grammar::start_at;
use crate::parse::lexer::is_word;
use crate::parse::lexer::tokens_view;
use crate::parse::lexer::Expected;
use crate::parse::lexer::Keyword;
use crate::parse::lexer::ParseError;
use crate::parse::lexer::Symbol;
use crate::parse::lexer::Token;
use crate::parse::lexer::TokenKind;
use vstd::prelude::*;

verus! {

/// What a parsed item with the place behind it stands for.
pub open spec fn parsed<T: View>(res: Result<(T, usize), ParseError>) -> Result<
    (T::V, int),
    ParseError,
> {
    match res {
        Ok((item, next)) => Ok((item@, next as int)),
        Err(e) => Err(e),
    }
}

/// The error that the token at `pos` is not what was expected.
pub fn error(tokens: &Vec<Token>, pos: usize, expected: Expected) -> (e: ParseError)
    ensures
        e == (ParseError { position: start_at(tokens_view(tokens@), pos as int), expected: expected }),
{
    let position = if pos < tokens.len() {
        tokens[pos].start
    } else if tokens.len() > 0 {
        tokens[tokens.len() - 1].start
    } else {
        0
    };
    ParseError { position: position, expected: expected }
}

/// Whether the token at `pos` is the keyword.
pub fn has_keyword(tokens: &Vec<Token>, pos: usize, keyword: Keyword) -> (r: bool)
    ensures
        r == is_keyword(tokens_view(tokens@), pos as int, keyword),
        r ==> pos < tokens.len(),
{
    if pos >= tokens.len() {
        return false;
    }
    match &tokens[pos].kind {
        TokenKind::Keyword(k) => *k == keyword,
        _ => false,
    }
}

/// Whether the token at `pos` is the sign.
pub fn has_symbol(tokens: &Vec<Token>, pos: usize, symbol: Symbol) -> (r: bool)
    ensures
        r == is_symbol(tokens_view(tokens@), pos as int, symbol),
        r ==> pos < tokens.len(),
{
    if pos >= tokens.len() {
        return false;
    }
    match &tokens[pos].kind {
        TokenKind::Symbol(s) => *s == symbol,
        _ => false,
    }
}

/// An identifier.
pub fn parse_identifier(tokens: &Vec<Token>, pos: usize) -> (res: Result<
    (Identifier, usize),
    ParseError,
>)
    ensures
        parsed(res) == grammar::parse_identifier(tokens_view(tokens@), pos as int),
        res matches Ok((_, next)) ==> pos < tokens.len() && next == pos + 1,
{
    if pos < tokens.len() {
        match &tokens[pos].kind {
            TokenKind::Identifier(name) => {
                return Ok((Identifier(name.clone()), pos + 1));
            },
            _ => {},
        }
    }
    Err(error(tokens, pos, Expected::Identifier))
}

/// A literal: a number, a text, `true` or `false`.
pub fn parse_literal(tokens: &Vec<Token>, pos: usize) -> (res: Result<(Literal, usize), ParseError>)
    ensures
        parsed(res) == grammar::parse_literal(tokens_view(tokens@), pos as int),
        res matches Ok((_, next)) ==> pos < tokens.len() && next == pos + 1,
{
    if pos < tokens.len() {
        match &tokens[pos].kind {
            TokenKind::Number(n) => {
                return Ok((Literal::Number(*n), pos + 1));
            },
            TokenKind::Text(s) => {
                return Ok((Literal::String(s.clone()), pos + 1));
            },
            TokenKind::Keyword(Keyword::True) => {
                return Ok((Literal::Boolean(true), pos + 1));
            },
            TokenKind::Keyword(Keyword::False) => {
                return Ok((Literal::Boolean(false), pos + 1));
            },
            _ => {},
        }
    }
    Err(error(tokens, pos, Expected::Literal))
}

/// A column reference: `*`, `name`, `scope.name` or `scope.*`.
pub fn parse_column_identifier(tokens: &Vec<Token>, pos: usize) -> (res: Result<
    (ColumnIdentifier, usize),
    ParseError,
>)
    ensures
        parsed(res) == grammar::parse_column_identifier(tokens_view(tokens@), pos as int),
        res matches Ok((_, next)) ==> advances(tokens_view(tokens@), pos as int, next as int),
{
    if pos < tokens.len() {
        match &tokens[pos].kind {
            TokenKind::Symbol(Symbol::Star) => {
                return Ok((ColumnIdentifier { alias: None, name: Column::Star }, pos + 1));
            },
            TokenKind::Identifier(first) => {
                if !has_symbol(tokens, pos + 1, Symbol::Dot) {
                    return Ok(
                        (
                            ColumnIdentifier {
                                alias: None,
                                name: Column::Ident(Identifier(first.clone())),
                            },
                            pos + 1,
                        ),
                    );
                }
                if pos + 2 < tokens.len() {
                    match &tokens[pos + 2].kind {
                        TokenKind::Symbol(Symbol::Star) => {
                            return Ok(
                                (
                                    ColumnIdentifier {
                                        alias: Some(Identifier(first.clone())),
                                        name: Column::Star,
                                    },
                                    pos + 3,
                                ),
                            );
                        },
                        TokenKind::Identifier(second) => {
                            return Ok(
                                (
                                    ColumnIdentifier {
                                        alias: Some(Identifier(first.clone())),
                                        name: Column::Ident(Identifier(second.clone())),
                                    },
                                    pos + 3,
                                ),
                            );
                        },
                        _ => {},
                    }
                }
                return Err(error(tokens, pos + 2, Expected::Identifier));
            },
            _ => {},
        }
    }
    Err(error(tokens, pos, Expected::Expression))
}

/// A table name, with an alias where an identifier follows it.
pub fn parse_table_identifier(tokens: &Vec<Token>, pos: usize) -> (res: Result<
    (TableIdentifier, usize),
    ParseError,
>)
    ensures
        parsed(res) == grammar::parse_table_identifier(tokens_view(tokens@), pos as int),
        res matches Ok((_, next)) ==> advances(tokens_view(tokens@), pos as int, next as int),
{
    match parse_identifier(tokens, pos) {
        Err(e) => Err(e),
        Ok((name, next)) => match parse_identifier(tokens, next) {
            Ok((alias, after)) => Ok((TableIdentifier { name: name, alias: Some(alias) }, after)),
            Err(_) => Ok((TableIdentifier { name: name, alias: None }, next)),
        },
    }
}

/// The binary operator at a place, if one stands there.
pub fn operator(tokens: &Vec<Token>, pos: usize) -> (op: Option<ExpressionOp>)
    ensures
        op == grammar::operator_at(tokens_view(tokens@), pos as int),
        op is Some ==> pos < tokens.len(),
{
    if pos >= tokens.len() {
        return None;
    }
    match &tokens[pos].kind {
        TokenKind::Keyword(Keyword::And) => Some(ExpressionOp::And),
        TokenKind::Keyword(Keyword::Or) => Some(ExpressionOp::Or),
        TokenKind::Keyword(Keyword::In) => Some(ExpressionOp::In),
        TokenKind::Symbol(Symbol::Equal) => Some(ExpressionOp::Equal),
        TokenKind::Symbol(Symbol::Less) => Some(ExpressionOp::Less),
        TokenKind::Symbol(Symbol::LessEqual) => Some(ExpressionOp::LessEqual),
        TokenKind::Symbol(Symbol::Greater) => Some(ExpressionOp::Greater),
        TokenKind::Symbol(Symbol::GreaterEqual) => Some(ExpressionOp::GreaterEqual),
        TokenKind::Symbol(Symbol::Plus) => Some(ExpressionOp::Plus),
        TokenKind::Symbol(Symbol::Minus) => Some(ExpressionOp::Minus),
        _ => None,
    }
}

/// How tightly an operator binds.
pub fn binding(op: ExpressionOp) -> (p: u8)
    ensures
        p == grammar::precedence(op),
{
    match op {
        ExpressionOp::And | ExpressionOp::Or | ExpressionOp::In => 1,
        ExpressionOp::Equal
        | ExpressionOp::Less
        | ExpressionOp::LessEqual
        | ExpressionOp::Greater
        | ExpressionOp::GreaterEqual => 2,
        ExpressionOp::Plus | ExpressionOp::Minus => 3,
    }
}

/// An operand: a literal, `count(*)`, a subquery or an expression in parentheses, or
/// a column reference.
pub fn parse_term(tokens: &Vec<Token>, pos: usize) -> (res: Result<(Expression, usize), ParseError>)
    ensures
        parsed(res) == grammar::parse_term(tokens_view(tokens@), pos as int),
        res matches Ok((_, next)) ==> advances(tokens_view(tokens@), pos as int, next as int),
    decreases rest(tokens_view(tokens@), pos as int), 0nat,
{
    if pos < tokens.len() {
        match &tokens[pos].kind {
            TokenKind::Number(n) => {
                return Ok((Expression::Literal(Literal::Number(*n)), pos + 1));
            },
            TokenKind::Text(s) => {
                return Ok((Expression::Literal(Literal::String(s.clone())), pos + 1));
            },
            TokenKind::Keyword(Keyword::True) => {
                return Ok((Expression::Literal(Literal::Boolean(true)), pos + 1));
            },
            TokenKind::Keyword(Keyword::False) => {
                return Ok((Expression::Literal(Literal::Boolean(false)), pos + 1));
            },
            TokenKind::Keyword(Keyword::Count) => {
                if !has_symbol(tokens, pos + 1, Symbol::LeftParen) {
                    return Err(error(tokens, pos + 1, Expected::Symbol(Symbol::LeftParen)));
                }
                if !has_symbol(tokens, pos + 2, Symbol::Star) {
                    return Err(error(tokens, pos + 2, Expected::Symbol(Symbol::Star)));
                }
                if !has_symbol(tokens, pos + 3, Symbol::RightParen) {
                    return Err(error(tokens, pos + 3, Expected::Symbol(Symbol::RightParen)));
                }
                return Ok((Expression::CountStar, pos + 4));
            },
            TokenKind::Symbol(Symbol::LeftParen) => {
                if has_keyword(tokens, pos + 1, Keyword::Select) {
                    return match parse_select(tokens, pos + 1) {
                        Err(e) => Err(e),
                        Ok((query, next)) => if has_symbol(tokens, next, Symbol::RightParen) {
                            Ok((Expression::Subquery(Box::new(query)), next + 1))
                        } else {
                            Err(error(tokens, next, Expected::Symbol(Symbol::RightParen)))
                        },
                    };
                }
                return match parse_expression(tokens, pos + 1, 0) {
                    Err(e) => Err(e),
                    Ok((expr, next)) => if has_symbol(tokens, next, Symbol::RightParen) {
                        Ok((expr, next + 1))
                    } else {
                        Err(error(tokens, next, Expected::Symbol(Symbol::RightParen)))
                    },
                };
            },
            _ => {},
        }
    }
    match parse_column_identifier(tokens, pos) {
        Err(e) => Err(e),
        Ok((identifier, next)) => Ok((Expression::ColumnIdentifier(identifier), next)),
    }
}

/// An expression whose operators all bind at least as tightly as `min`.
///
/// Reads an operand, then, as long as an operator follows that binds at least as
/// tightly as `min`, the operator and as its right operand the expression whose
/// operators all bind more tightly than it.
pub fn parse_expression(tokens: &Vec<Token>, pos: usize, min: u8) -> (res: Result<
    (Expression, usize),
    ParseError,
>)
    requires
        min <= 4,
    ensures
        parsed(res) == grammar::parse_expression(tokens_view(tokens@), pos as int, min as nat),
        res matches Ok((_, next)) ==> advances(tokens_view(tokens@), pos as int, next as int),
    decreases rest(tokens_view(tokens@), pos as int), 2nat,
{
    let ghost tv = tokens_view(tokens@);
    let (mut left, mut at) = match parse_term(tokens, pos) {
        Err(e) => {
            return Err(e);
        },
        Ok(term) => term,
    };
    #[verifier::loop_isolation(false)]
    loop
        invariant
            advances(tv, pos as int, at as int),
            grammar::parse_expression(tv, pos as int, min as nat) == grammar::climb(
                tv,
                at as int,
                left@,
                min as nat,
            ),
        decreases rest(tv, at as int),
    {
        let op = match operator(tokens, at) {
            None => {
                return Ok((left, at));
            },
            Some(op) => op,
        };
        if binding(op) < min {
            return Ok((left, at));
        }
        let (right, next) = match parse_expression(tokens, at + 1, binding(op) + 1) {
            Err(e) => {
                return Err(e);
            },
            Ok(found) => found,
        };
        match (op, &right) {
            (ExpressionOp::In, Expression::Subquery(_)) => {},
            (ExpressionOp::In, _) => {
                return Err(error(tokens, at + 1, Expected::Subquery));
            },
            _ => {},
        }
        left = Expression::BinaryOp(
            BinaryOp { op: op, left: Box::new(left), right: Box::new(right) },
        );
        at = next;
    }
}

/// One or more expressions, separated by commas.
pub fn parse_expression_list(tokens: &Vec<Token>, pos: usize) -> (res: Result<
    (Vec<Expression>, usize),
    ParseError,
>)
    ensures
        match res {
            Ok((list, next)) => grammar::parse_expression_list(tokens_view(tokens@), pos as int)
                == Ok::<(Seq<ExpressionView>, int), ParseError>(
                (expressions_view(list@), next as int),
            ) && advances(tokens_view(tokens@), pos as int, next as int),
            Err(e) => grammar::parse_expression_list(tokens_view(tokens@), pos as int) == Err::<
                (Seq<ExpressionView>, int),
                ParseError,
            >(e),
        },
    decreases rest(tokens_view(tokens@), pos as int), 4nat,
{
    let ghost tv = tokens_view(tokens@);
    let (first, mut at) = match parse_expression(tokens, pos, 0) {
        Err(e) => {
            return Err(e);
        },
        Ok(found) => found,
    };
    let mut list: Vec<Expression> = Vec::new();
    list.push(first);
    assert(expressions_view(list@) =~= seq![first@]);
    #[verifier::loop_isolation(false)]
    loop
        invariant
            advances(tv, pos as int, at as int),
            grammar::parse_expression_list(tv, pos as int) == grammar::parse_more_expressions(
                tv,
                at as int,
                expressions_view(list@),
            ),
        decreases rest(tv, at as int),
    {
        if !has_symbol(tokens, at, Symbol::Comma) {
            return Ok((list, at));
        }
        let ghost found = expressions_view(list@);
        match parse_expression(tokens, at + 1, 0) {
            Err(e) => {
                return Err(e);
            },
            Ok((expr, next)) => {
                list.push(expr);
                assert(expressions_view(list@) =~= found.push(expr@));
                at = next;
            },
        }
    }
}

/// The kind of join that begins at a place, if one does.
pub fn join_kind(tokens: &Vec<Token>, pos: usize) -> (kind: Option<JoinKind>)
    ensures
        kind == grammar::join_kind_at(tokens_view(tokens@), pos as int),
        kind is Some ==> pos < tokens.len(),
{
    if pos >= tokens.len() {
        return None;
    }
    match &tokens[pos].kind {
        TokenKind::Keyword(Keyword::Inner) => Some(JoinKind::Inner),
        TokenKind::Keyword(Keyword::Left) => Some(JoinKind::Left),
        TokenKind::Keyword(Keyword::Right) => Some(JoinKind::Right),
        _ => None,
    }
}

/// The joins of a select query, from `pos` on.
pub fn parse_joins(tokens: &Vec<Token>, pos: usize) -> (res: Result<(Vec<Join>, usize), ParseError>)
    requires
        pos <= tokens.len(),
    ensures
        match res {
            Ok((joins, next)) => grammar::parse_joins(
                tokens_view(tokens@),
                pos as int,
                Seq::empty(),
            ) == Ok::<(Seq<JoinView>, int), ParseError>((joins_view(joins@), next as int)) && pos
                <= next <= tokens.len(),
            Err(e) => grammar::parse_joins(tokens_view(tokens@), pos as int, Seq::empty()) == Err::<
                (Seq<JoinView>, int),
                ParseError,
            >(e),
        },
    decreases rest(tokens_view(tokens@), pos as int), 3nat,
{
    let ghost tv = tokens_view(tokens@);
    let mut joins: Vec<Join> = Vec::new();
    let mut at: usize = pos;
    assert(joins_view(joins@) =~= Seq::<JoinView>::empty());
    #[verifier::loop_isolation(false)]
    loop
        invariant
            pos <= at <= tokens.len(),
            grammar::parse_joins(tv, pos as int, Seq::empty()) == grammar::parse_joins(
                tv,
                at as int,
                joins_view(joins@),
            ),
        decreases rest(tv, at as int),
    {
        let kind = match join_kind(tokens, at) {
            None => {
                return Ok((joins, at));
            },
            Some(kind) => kind,
        };
        if !has_keyword(tokens, at + 1, Keyword::Join) {
            return Err(error(tokens, at + 1, Expected::Keyword(Keyword::Join)));
        }
        let (table, at_on) = match parse_table_identifier(tokens, at + 2) {
            Err(e) => {
                return Err(e);
            },
            Ok(found) => found,
        };
        if !has_keyword(tokens, at_on, Keyword::On) {
            return Err(error(tokens, at_on, Expected::Keyword(Keyword::On)));
        }
        let ghost found = joins_view(joins@);
        match parse_expression(tokens, at_on + 1, 0) {
            Err(e) => {
                return Err(e);
            },
            Ok((condition, next)) => {
                let join = Join { kind: kind, table: table, condition: condition };
                joins.push(join);
                assert(joins_view(joins@) =~= found.push(join_view(join)));
                at = next;
            },
        }
    }
}

/// What an optional expression with the place behind it stands for.
pub open spec fn parsed_optional(res: Result<(Option<Expression>, usize), ParseError>) -> Result<
    (Option<ExpressionView>, int),
    ParseError,
> {
    match res {
        Ok((Some(e), next)) => Ok((Some(e@), next as int)),
        Ok((None, next)) => Ok((None, next as int)),
        Err(e) => Err(e),
    }
}

/// The expression behind a keyword, where the keyword stands at `pos`.
pub fn parse_clause(tokens: &Vec<Token>, pos: usize, keyword: Keyword) -> (res: Result<
    (Option<Expression>, usize),
    ParseError,
>)
    requires
        pos <= tokens.len(),
    ensures
        keyword == Keyword::Where ==> parsed_optional(res) == grammar::parse_where(
            tokens_view(tokens@),
            pos as int,
        ),
        keyword == Keyword::Limit ==> parsed_optional(res) == grammar::parse_limit(
            tokens_view(tokens@),
            pos as int,
        ),
        res matches Ok((_, next)) ==> pos <= next <= tokens.len(),
    decreases rest(tokens_view(tokens@), pos as int), 3nat,
{
    if has_keyword(tokens, pos, keyword) {
        match parse_expression(tokens, pos + 1, 0) {
            Err(e) => Err(e),
            Ok((expr, next)) => Ok((Some(expr), next)),
        }
    } else {
        Ok((None, pos))
    }
}

/// What an optional sort with the place behind it stands for.
pub open spec fn parsed_order(res: Result<(Option<OrderBy>, usize), ParseError>) -> Result<
    (Option<OrderByView>, int),
    ParseError,
> {
    match res {
        Ok((Some(s), next)) => Ok(
            (Some(OrderByView { expr: s.expr@, direction: s.direction }), next as int),
        ),
        Ok((None, next)) => Ok((None, next as int)),
        Err(e) => Err(e),
    }
}

/// The sort of a query, where `order by` stands.
pub fn parse_order(tokens: &Vec<Token>, pos: usize) -> (res: Result<
    (Option<OrderBy>, usize),
    ParseError,
>)
    requires
        pos <= tokens.len(),
    ensures
        parsed_order(res) == grammar::parse_order(tokens_view(tokens@), pos as int),
        res matches Ok((_, next)) ==> pos <= next <= tokens.len(),
    decreases rest(tokens_view(tokens@), pos as int), 3nat,
{
    if !has_keyword(tokens, pos, Keyword::Order) {
        return Ok((None, pos));
    }
    if !has_keyword(tokens, pos + 1, Keyword::By) {
        return Err(error(tokens, pos + 1, Expected::Keyword(Keyword::By)));
    }
    match parse_expression(tokens, pos + 2, 0) {
        Err(e) => Err(e),
        Ok((expr, next)) => {
            if has_keyword(tokens, next, Keyword::Asc) {
                Ok((Some(OrderBy { expr: expr, direction: OrderByDirection::Asc }), next + 1))
            } else if has_keyword(tokens, next, Keyword::Desc) {
                Ok((Some(OrderBy { expr: expr, direction: OrderByDirection::Desc }), next + 1))
            } else {
                Ok((Some(OrderBy { expr: expr, direction: OrderByDirection::Asc }), next))
            }
        },
    }
}

/// A select query.
pub fn parse_select(tokens: &Vec<Token>, pos: usize) -> (res: Result<
    (SelectQuery, usize),
    ParseError,
>)
    ensures
        parsed(res) == grammar::parse_select(tokens_view(tokens@), pos as int),
        res matches Ok((_, next)) ==> advances(tokens_view(tokens@), pos as int, next as int),
    decreases rest(tokens_view(tokens@), pos as int), 5nat,
{
    if !has_keyword(tokens, pos, Keyword::Select) {
        return Err(error(tokens, pos, Expected::Keyword(Keyword::Select)));
    }
    let (list, at_from) = match parse_expression_list(tokens, pos + 1) {
        Err(e) => {
            return Err(e);
        },
        Ok(found) => found,
    };
    if !has_keyword(tokens, at_from, Keyword::From) {
        return Err(error(tokens, at_from, Expected::Keyword(Keyword::From)));
    }
    let (root, at_joins) = match parse_table_identifier(tokens, at_from + 1) {
        Err(e) => {
            return Err(e);
        },
        Ok(found) => found,
    };
    let (joins, at_where) = match parse_joins(tokens, at_joins) {
        Err(e) => {
            return Err(e);
        },
        Ok(found) => found,
    };
    let (filter, at_order) = match parse_clause(tokens, at_where, Keyword::Where) {
        Err(e) => {
            return Err(e);
        },
        Ok(found) => found,
    };
    let (sort, at_limit) = match parse_order(tokens, at_order) {
        Err(e) => {
            return Err(e);
        },
        Ok(found) => found,
    };
    let (limit, next) = match parse_clause(tokens, at_limit, Keyword::Limit) {
        Err(e) => {
            return Err(e);
        },
        Ok(found) => found,
    };
    let query = SelectQuery {
        select_list: list,
        table: TableExpression { root_table: root, joins: joins },
        filter: filter,
        sort: sort,
        limit: limit,
    };
    Ok((query, next))
}

/// The names behind the first one: each behind a comma.
pub fn parse_identifier_list(tokens: &Vec<Token>, pos: usize) -> (res: Result<
    (Vec<Identifier>, usize),
    ParseError,
>)
    ensures
        match res {
            Ok((names, next)) => grammar::parse_identifier(tokens_view(tokens@), pos as int) is Ok
                && grammar::parse_more_identifiers(
                tokens_view(tokens@),
                pos + 1,
                seq![grammar::parse_identifier(tokens_view(tokens@), pos as int)->Ok_0.0],
            ) == Ok::<(Seq<Seq<char>>, int), ParseError>(
                (Seq::new(names@.len(), |i: int| names@[i].0@), next as int),
            ) && pos < next <= tokens.len(),
            Err(e) => match grammar::parse_identifier(tokens_view(tokens@), pos as int) {
                Err(first) => e == first,
                Ok((first, _)) => grammar::parse_more_identifiers(
                    tokens_view(tokens@),
                    pos + 1,
                    seq![first],
                ) == Err::<(Seq<Seq<char>>, int), ParseError>(e),
            },
        },
{
    let ghost tv = tokens_view(tokens@);
    let (first, mut at) = match parse_identifier(tokens, pos) {
        Err(e) => {
            return Err(e);
        },
        Ok(found) => found,
    };
    let mut names: Vec<Identifier> = Vec::new();
    names.push(first);
    let ghost start = seq![first.0@];
    assert(Seq::new(names@.len(), |i: int| names@[i].0@) =~= start);
    #[verifier::loop_isolation(false)]
    loop
        invariant
            pos < at <= tokens.len(),
            tv == tokens_view(tokens@),
            grammar::parse_more_identifiers(tv, pos + 1, start) == grammar::parse_more_identifiers(
                tv,
                at as int,
                Seq::new(names@.len(), |i: int| names@[i].0@),
            ),
        decreases tokens.len() - at,
    {
        if !has_symbol(tokens, at, Symbol::Comma) {
            return Ok((names, at));
        }
        let ghost found = Seq::new(names@.len(), |i: int| names@[i].0@);
        match parse_identifier(tokens, at + 1) {
            Err(e) => {
                return Err(e);
            },
            Ok((name, next)) => {
                names.push(name);
                assert(Seq::new(names@.len(), |i: int| names@[i].0@) =~= found.push(name.0@));
                at = next;
            },
        }
    }
}

/// The literals behind the first one: each behind a comma.
pub fn parse_literal_list(tokens: &Vec<Token>, pos: usize) -> (res: Result<
    (Vec<Literal>, usize),
    ParseError,
>)
    ensures
        match res {
            Ok((values, next)) => grammar::parse_literal(tokens_view(tokens@), pos as int) is Ok
                && grammar::parse_more_literals(
                tokens_view(tokens@),
                pos + 1,
                seq![grammar::parse_literal(tokens_view(tokens@), pos as int)->Ok_0.0],
            ) == Ok::<(Seq<crate::data::value::ValueView>, int), ParseError>(
                (Seq::new(values@.len(), |i: int| values@[i]@), next as int),
            ) && pos < next <= tokens.len(),
            Err(e) => match grammar::parse_literal(tokens_view(tokens@), pos as int) {
                Err(first) => e == first,
                Ok((first, _)) => grammar::parse_more_literals(
                    tokens_view(tokens@),
                    pos + 1,
                    seq![first],
                ) == Err::<(Seq<crate::data::value::ValueView>, int), ParseError>(e),
            },
        },
{
    let ghost tv = tokens_view(tokens@);
    let (first, mut at) = match parse_literal(tokens, pos) {
        Err(e) => {
            return Err(e);
        },
        Ok(found) => found,
    };
    let mut values: Vec<Literal> = Vec::new();
    values.push(first);
    let ghost start = seq![first@];
    assert(Seq::new(values@.len(), |i: int| values@[i]@) =~= start);
    #[verifier::loop_isolation(false)]
    loop
        invariant
            pos < at <= tokens.len(),
            tv == tokens_view(tokens@),
            grammar::parse_more_literals(tv, pos + 1, start) == grammar::parse_more_literals(
                tv,
                at as int,
                Seq::new(values@.len(), |i: int| values@[i]@),
            ),
        decreases tokens.len() - at,
    {
        if !has_symbol(tokens, at, Symbol::Comma) {
            return Ok((values, at));
        }
        let ghost found = Seq::new(values@.len(), |i: int| values@[i]@);
        match parse_literal(tokens, at + 1) {
            Err(e) => {
                return Err(e);
            },
            Ok((value, next)) => {
                values.push(value);
                assert(Seq::new(values@.len(), |i: int| values@[i]@) =~= found.push(value@));
                at = next;
            },
        }
    }
}

/// An insert query.
pub fn parse_insert(tokens: &Vec<Token>, pos: usize) -> (res: Result<
    (InsertQuery, usize),
    ParseError,
>)
    ensures
        parsed(res) == grammar::parse_insert(tokens_view(tokens@), pos as int),
        res matches Ok((_, next)) ==> advances(tokens_view(tokens@), pos as int, next as int),
{
    proof {
        reveal(grammar::parse_insert);
    }
    if !has_keyword(tokens, pos, Keyword::Insert) {
        return Err(error(tokens, pos, Expected::Keyword(Keyword::Insert)));
    }
    if !has_keyword(tokens, pos + 1, Keyword::Into) {
        return Err(error(tokens, pos + 1, Expected::Keyword(Keyword::Into)));
    }
    let (table, at_open) = match parse_identifier(tokens, pos + 2) {
        Err(e) => {
            return Err(e);
        },
        Ok(found) => found,
    };
    if !has_symbol(tokens, at_open, Symbol::LeftParen) {
        return Err(error(tokens, at_open, Expected::Symbol(Symbol::LeftParen)));
    }
    let (columns, at_close) = match parse_identifier_list(tokens, at_open + 1) {
        Err(e) => {
            return Err(e);
        },
        Ok(found) => found,
    };
    if !has_symbol(tokens, at_close, Symbol::RightParen) {
        return Err(error(tokens, at_close, Expected::Symbol(Symbol::RightParen)));
    }
    if !has_keyword(tokens, at_close + 1, Keyword::Values) {
        return Err(error(tokens, at_close + 1, Expected::Keyword(Keyword::Values)));
    }
    if !has_symbol(tokens, at_close + 2, Symbol::LeftParen) {
        return Err(error(tokens, at_close + 2, Expected::Symbol(Symbol::LeftParen)));
    }
    let (values, at_end) = match parse_literal_list(tokens, at_close + 3) {
        Err(e) => {
            return Err(e);
        },
        Ok(found) => found,
    };
    if !has_symbol(tokens, at_end, Symbol::RightParen) {
        return Err(error(tokens, at_end, Expected::Symbol(Symbol::RightParen)));
    }
    let query = InsertQuery { table: table, columns: columns, values: values };
    assert(query@.columns =~= Seq::new(columns@.len(), |i: int| columns@[i].0@));
    assert(query@.values =~= Seq::new(values@.len(), |i: int| values@[i]@));
    Ok((query, at_end + 1))
}

/// Whether a text is the given lower case word, but for the case of its letters.
pub fn text_is(text: &str, lowered: &str) -> (r: bool)
    ensures
        r == is_word(text@, lowered@),
{
    let chars = crate::text::chars_of(text);
    assert(chars@.subrange(0, chars@.len() as int) =~= chars@);
    crate::parse::lexer::word_is(&chars, 0, chars.len(), lowered)
}

/// The type that a word names.
pub fn datatype_of(word: &str) -> (datatype: Option<Datatype>)
    ensures
        datatype == grammar::datatype_of_word(word@),
{
    if text_is(word, "number") {
        Some(Datatype::Number)
    } else if text_is(word, "text") {
        Some(Datatype::Text)
    } else if text_is(word, "boolean") {
        Some(Datatype::Boolean)
    } else {
        None
    }
}

/// A column of a table that is created: its name and its type.
pub fn parse_column_definition(tokens: &Vec<Token>, pos: usize) -> (res: Result<
    (CreateTableColumn, usize),
    ParseError,
>)
    ensures
        parsed(res) == grammar::parse_column_definition(tokens_view(tokens@), pos as int),
        res matches Ok((_, next)) ==> advances(tokens_view(tokens@), pos as int, next as int),
{
    let (name, at_type) = match parse_identifier(tokens, pos) {
        Err(e) => {
            return Err(e);
        },
        Ok(found) => found,
    };
    if at_type < tokens.len() {
        match &tokens[at_type].kind {
            TokenKind::Identifier(word) => match datatype_of(word.as_str()) {
                Some(datatype) => {
                    return Ok((CreateTableColumn { name: name, datatype: datatype }, at_type + 1));
                },
                None => {},
            },
            _ => {},
        }
    }
    Err(error(tokens, at_type, Expected::Datatype))
}

/// A create table query.
pub fn parse_create_table(tokens: &Vec<Token>, pos: usize) -> (res: Result<
    (CreateTableQuery, usize),
    ParseError,
>)
    ensures
        parsed(res) == grammar::parse_create_table(tokens_view(tokens@), pos as int),
        res matches Ok((_, next)) ==> advances(tokens_view(tokens@), pos as int, next as int),
{
    let ghost tv = tokens_view(tokens@);
    proof {
        reveal(grammar::parse_create_table);
    }
    if !has_keyword(tokens, pos, Keyword::Create) {
        return Err(error(tokens, pos, Expected::Keyword(Keyword::Create)));
    }
    if !has_keyword(tokens, pos + 1, Keyword::Table) {
        return Err(error(tokens, pos + 1, Expected::Keyword(Keyword::Table)));
    }
    let (name, at_open) = match parse_identifier(tokens, pos + 2) {
        Err(e) => {
            return Err(e);
        },
        Ok(found) => found,
    };
    if !has_symbol(tokens, at_open, Symbol::LeftParen) {
        return Err(error(tokens, at_open, Expected::Symbol(Symbol::LeftParen)));
    }
    let (first, mut at) = match parse_column_definition(tokens, at_open + 1) {
        Err(e) => {
            return Err(e);
        },
        Ok(found) => found,
    };
    let mut columns: Vec<CreateTableColumn> = Vec::new();
    columns.push(first);
    let ghost start = seq![first@];
    assert(Seq::new(columns@.len(), |i: int| columns@[i]@) =~= start);
    let ghost at_more = at as int;
    #[verifier::loop_isolation(false)]
    loop
        invariant
            pos < at <= tokens.len(),
            tv == tokens_view(tokens@),
            grammar::parse_more_definitions(tv, at_more, start) == grammar::parse_more_definitions(
                tv,
                at as int,
                Seq::new(columns@.len(), |i: int| columns@[i]@),
            ),
        decreases tokens.len() - at,
    {
        if !has_symbol(tokens, at, Symbol::Comma) {
            break ;
        }
        let ghost found = Seq::new(columns@.len(), |i: int| columns@[i]@);
        match parse_column_definition(tokens, at + 1) {
            Err(e) => {
                return Err(e);
            },
            Ok((column, next)) => {
                columns.push(column);
                assert(Seq::new(columns@.len(), |i: int| columns@[i]@) =~= found.push(column@));
                at = next;
            },
        }
    }
    if !has_symbol(tokens, at, Symbol::RightParen) {
        return Err(error(tokens, at, Expected::Symbol(Symbol::RightParen)));
    }
    let query = CreateTableQuery { table_name: name, columns: columns };
    assert(query@.columns =~= Seq::new(columns@.len(), |i: int| columns@[i]@));
    Ok((query, at + 1))
}

/// An assignment: a column name, `=` and a literal.
pub fn parse_assignment(tokens: &Vec<Token>, pos: usize) -> (res: Result<
    (Assignment, usize),
    ParseError,
>)
    ensures
        parsed(res) == grammar::parse_assignment(tokens_view(tokens@), pos as int),
        res matches Ok((_, next)) ==> advances(tokens_view(tokens@), pos as int, next as int),
{
    let (column, at_equal) = match parse_identifier(tokens, pos) {
        Err(e) => {
            return Err(e);
        },
        Ok(found) => found,
    };
    if !has_symbol(tokens, at_equal, Symbol::Equal) {
        return Err(error(tokens, at_equal, Expected::Symbol(Symbol::Equal)));
    }
    match parse_literal(tokens, at_equal + 1) {
        Err(e) => Err(e),
        Ok((value, next)) => Ok((Assignment { column: column, value: value }, next)),
    }
}

/// An update query.
pub fn parse_update(tokens: &Vec<Token>, pos: usize) -> (res: Result<
    (UpdateQuery, usize),
    ParseError,
>)
    ensures
        parsed(res) == grammar::parse_update(tokens_view(tokens@), pos as int),
        res matches Ok((_, next)) ==> advances(tokens_view(tokens@), pos as int, next as int),
{
    let ghost tv = tokens_view(tokens@);
    proof {
        reveal(grammar::parse_update);
    }
    if !has_keyword(tokens, pos, Keyword::Update) {
        return Err(error(tokens, pos, Expected::Keyword(Keyword::Update)));
    }
    let (table, at_set) = match parse_identifier(tokens, pos + 1) {
        Err(e) => {
            return Err(e);
        },
        Ok(found) => found,
    };
    if !has_keyword(tokens, at_set, Keyword::SetTo) {
        return Err(error(tokens, at_set, Expected::Keyword(Keyword::SetTo)));
    }
    let (first, mut at) = match parse_assignment(tokens, at_set + 1) {
        Err(e) => {
            return Err(e);
        },
        Ok(found) => found,
    };
    let mut assignments: Vec<Assignment> = Vec::new();
    assignments.push(first);
    let ghost start = seq![first@];
    assert(Seq::new(assignments@.len(), |i: int| assignments@[i]@) =~= start);
    let ghost at_more = at as int;
    #[verifier::loop_isolation(false)]
    loop
        invariant
            pos < at <= tokens.len(),
            tv == tokens_view(tokens@),
            grammar::parse_more_assignments(tv, at_more, start) == grammar::parse_more_assignments(
                tv,
                at as int,
                Seq::new(assignments@.len(), |i: int| assignments@[i]@),
            ),
        decreases tokens.len() - at,
    {
        if !has_symbol(tokens, at, Symbol::Comma) {
            break ;
        }
        let ghost found = Seq::new(assignments@.len(), |i: int| assignments@[i]@);
        match parse_assignment(tokens, at + 1) {
            Err(e) => {
                return Err(e);
            },
            Ok((assignment, next)) => {
                assignments.push(assignment);
                assert(Seq::new(assignments@.len(), |i: int| assignments@[i]@) =~= found.push(
                    assignment@,
                ));
                at = next;
            },
        }
    }
    if !has_keyword(tokens, at, Keyword::Where) {
        return Err(error(tokens, at, Expected::Keyword(Keyword::Where)));
    }
    match parse_expression(tokens, at + 1, 0) {
        Err(e) => Err(e),
        Ok((filter, next)) => {
            let query = UpdateQuery { table: table, assignments: assignments, filter: filter };
            assert(query@.assignments =~= Seq::new(
                assignments@.len(),
                |i: int| assignments@[i]@,
            ));
            Ok((query, next))
        },
    }
}

/// A query of any kind, told by its first keyword.
pub fn parse_query(tokens: &Vec<Token>, pos: usize) -> (res: Result<(Query, usize), ParseError>)
    ensures
        parsed(res) == grammar::parse_query(tokens_view(tokens@), pos as int),
        res matches Ok((_, next)) ==> advances(tokens_view(tokens@), pos as int, next as int),
{
    proof {
        reveal(grammar::parse_query);
    }
    if has_keyword(tokens, pos, Keyword::Select) {
        match parse_select(tokens, pos) {
            Err(e) => Err(e),
            Ok((q, next)) => Ok((Query::SelectQuery(q), next)),
        }
    } else if has_keyword(tokens, pos, Keyword::Insert) {
        match parse_insert(tokens, pos) {
            Err(e) => Err(e),
            Ok((q, next)) => Ok((Query::InsertQuery(q), next)),
        }
    } else if has_keyword(tokens, pos, Keyword::Create) {
        match parse_create_table(tokens, pos) {
            Err(e) => Err(e),
            Ok((q, next)) => Ok((Query::CreateTableQuery(q), next)),
        }
    } else if has_keyword(tokens, pos, Keyword::Update) {
        match parse_update(tokens, pos) {
            Err(e) => Err(e),
            Ok((q, next)) => Ok((Query::UpdateQuery(q), next)),
        }
    } else {
        Err(error(tokens, pos, Expected::Query))
    }
}

/// The queries that the tokens of a text hold: one or more, each followed by a
/// semicolon.
pub fn parse_tokens(tokens: &Vec<Token>) -> (res: Result<Queries, ParseError>)
    ensures
        match res {
            Ok(queries) => grammar::parse_queries_from(tokens_view(tokens@), 0, Seq::empty())
                == Ok::<Seq<QueryView>, ParseError>(queries@),
            Err(e) => grammar::parse_queries_from(tokens_view(tokens@), 0, Seq::empty()) == Err::<
                Seq<QueryView>,
                ParseError,
            >(e),
        },
{
    let ghost tv = tokens_view(tokens@);
    let mut queries: Vec<Query> = Vec::new();
    let mut at: usize = 0;
    assert(Seq::new(queries@.len(), |i: int| queries@[i]@) =~= Seq::<QueryView>::empty());
    #[verifier::loop_isolation(false)]
    loop
        invariant
            at <= tokens.len(),
            tv == tokens_view(tokens@),
            grammar::parse_queries_from(tv, 0, Seq::empty()) == grammar::parse_queries_from(
                tv,
                at as int,
                Seq::new(queries@.len(), |i: int| queries@[i]@),
            ),
        decreases tokens.len() - at,
    {
        let ghost found = Seq::new(queries@.len(), |i: int| queries@[i]@);
        let (query, at_end) = match parse_query(tokens, at) {
            Err(e) => {
                return Err(e);
            },
            Ok(parsed) => parsed,
        };
        if !has_symbol(tokens, at_end, Symbol::Semicolon) {
            return Err(error(tokens, at_end, Expected::Symbol(Symbol::Semicolon)));
        }
        queries.push(query);
        assert(Seq::new(queries@.len(), |i: int| queries@[i]@) =~= found.push(query@));
        at = at_end + 1;
        let ended = if at < tokens.len() {
            match &tokens[at].kind {
                TokenKind::End => true,
                _ => false,
            }
        } else {
            true
        };
        if ended {
            let all = Queries(queries);
            assert(all@ =~= Seq::new(queries@.len(), |i: int| queries@[i]@));
            return Ok(all);
        }
    }
}

} // verus!
