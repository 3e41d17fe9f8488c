//! The grammar of the query language, as functions from the tokens of a text to what
//! they denote.
//!
//! Each function reads from a place in the tokens and gives what it read together
//! with the place behind it, or the place at which the tokens do not fit and what was
//! expected there.

use crate::data::column::ColumnView;
use crate::data::datatype::Datatype;
use crate::data::value::ValueView;
use crate::parse::ast::view::AssignmentView;
use crate::parse::ast::view::ColumnIdentifierView;
use crate::parse::ast::view::CreateTableQueryView;
use crate::parse::ast::view::ExpressionView;
use crate::parse::ast::view::InsertQueryView;
use crate::parse::ast::view::JoinView;
use crate::parse::ast::view::OrderByView;
use crate::parse::ast::view::QueryView;
use crate::parse::ast::view::SelectQueryView;
use crate::parse::ast::view::TableIdentifierView;
use crate::parse::ast::view::UpdateQueryView;
use crate::parse::ast::ExpressionOp;
use crate::parse::ast::JoinKind;
use crate::parse::ast::OrderByDirection;
use crate::parse::lexer::is_word;
use crate::parse::lexer::tokens_of;
use crate::parse::lexer::Expected;
use crate::parse::lexer::Keyword;
use crate::parse::lexer::ParseError;
use crate::parse::lexer::Symbol;
use crate::parse::lexer::TokenKindView;
use crate::parse::lexer::TokenView;
use vstd::prelude::*;

verus! {

/// The kind of the token at a place; behind the last token, `End`.
pub open spec fn kind_at(tokens: Seq<TokenView>, pos: int) -> TokenKindView {
    if 0 <= pos < tokens.len() {
        tokens[pos].kind
    } else {
        TokenKindView::End
    }
}

/// The place in the text at which the token at `pos` starts.
pub open spec fn start_at(tokens: Seq<TokenView>, pos: int) -> usize {
    if 0 <= pos < tokens.len() {
        tokens[pos].start
    } else if tokens.len() > 0 {
        tokens.last().start
    } else {
        0
    }
}

/// The error that the token at `pos` is not what was expected.
pub open spec fn fail<T>(tokens: Seq<TokenView>, pos: int, expected: Expected) -> Result<
    T,
    ParseError,
> {
    Err(ParseError { position: start_at(tokens, pos), expected: expected })
}

/// How many tokens stand from `pos` on.
pub open spec fn rest(tokens: Seq<TokenView>, pos: int) -> nat {
    if 0 <= pos <= tokens.len() {
        (tokens.len() - pos) as nat
    } else {
        0
    }
}

/// Whether reading from `pos` to `next` took at least one token.
pub open spec fn advances(tokens: Seq<TokenView>, pos: int, next: int) -> bool {
    0 <= pos < next <= tokens.len()
}

/// Whether the token at `pos` is the keyword.
pub open spec fn is_keyword(tokens: Seq<TokenView>, pos: int, keyword: Keyword) -> bool {
    kind_at(tokens, pos) == TokenKindView::Keyword(keyword)
}

/// Whether the token at `pos` is the sign.
pub open spec fn is_symbol(tokens: Seq<TokenView>, pos: int, symbol: Symbol) -> bool {
    kind_at(tokens, pos) == TokenKindView::Symbol(symbol)
}

/// An identifier.
pub open spec fn parse_identifier(tokens: Seq<TokenView>, pos: int) -> Result<
    (Seq<char>, int),
    ParseError,
> {
    match kind_at(tokens, pos) {
        TokenKindView::Identifier(name) => Ok((name, pos + 1)),
        _ => fail(tokens, pos, Expected::Identifier),
    }
}

/// A literal: a number, a text, `true` or `false`.
pub open spec fn parse_literal(tokens: Seq<TokenView>, pos: int) -> Result<
    (ValueView, int),
    ParseError,
> {
    match kind_at(tokens, pos) {
        TokenKindView::Number(n) => Ok((ValueView::Number(n), pos + 1)),
        TokenKindView::Text(s) => Ok((ValueView::Text(s), pos + 1)),
        TokenKindView::Keyword(Keyword::True) => Ok((ValueView::Boolean(true), pos + 1)),
        TokenKindView::Keyword(Keyword::False) => Ok((ValueView::Boolean(false), pos + 1)),
        _ => fail(tokens, pos, Expected::Literal),
    }
}

/// A column reference: `*`, `name`, `scope.name` or `scope.*`.
pub open spec fn parse_column_identifier(tokens: Seq<TokenView>, pos: int) -> Result<
    (ColumnIdentifierView, int),
    ParseError,
> {
    match kind_at(tokens, pos) {
        TokenKindView::Symbol(Symbol::Star) => Ok(
            (ColumnIdentifierView { alias: None, name: None }, pos + 1),
        ),
        TokenKindView::Identifier(first) => if is_symbol(tokens, pos + 1, Symbol::Dot) {
            match kind_at(tokens, pos + 2) {
                TokenKindView::Symbol(Symbol::Star) => Ok(
                    (ColumnIdentifierView { alias: Some(first), name: None }, pos + 3),
                ),
                TokenKindView::Identifier(second) => Ok(
                    (ColumnIdentifierView { alias: Some(first), name: Some(second) }, pos + 3),
                ),
                _ => fail(tokens, pos + 2, Expected::Identifier),
            }
        } else {
            Ok((ColumnIdentifierView { alias: None, name: Some(first) }, pos + 1))
        },
        _ => fail(tokens, pos, Expected::Expression),
    }
}

/// A table name, with an alias where an identifier follows it.
pub open spec fn parse_table_identifier(tokens: Seq<TokenView>, pos: int) -> Result<
    (TableIdentifierView, int),
    ParseError,
> {
    match kind_at(tokens, pos) {
        TokenKindView::Identifier(name) => match kind_at(tokens, pos + 1) {
            TokenKindView::Identifier(alias) => Ok(
                (TableIdentifierView { name: name, alias: Some(alias) }, pos + 2),
            ),
            _ => Ok((TableIdentifierView { name: name, alias: None }, pos + 1)),
        },
        _ => fail(tokens, pos, Expected::Identifier),
    }
}

/// The binary operator at a place, if one stands there.
pub open spec fn operator_at(tokens: Seq<TokenView>, pos: int) -> Option<ExpressionOp> {
    match kind_at(tokens, pos) {
        TokenKindView::Keyword(Keyword::And) => Some(ExpressionOp::And),
        TokenKindView::Keyword(Keyword::Or) => Some(ExpressionOp::Or),
        TokenKindView::Keyword(Keyword::In) => Some(ExpressionOp::In),
        TokenKindView::Symbol(Symbol::Equal) => Some(ExpressionOp::Equal),
        TokenKindView::Symbol(Symbol::Less) => Some(ExpressionOp::Less),
        TokenKindView::Symbol(Symbol::LessEqual) => Some(ExpressionOp::LessEqual),
        TokenKindView::Symbol(Symbol::Greater) => Some(ExpressionOp::Greater),
        TokenKindView::Symbol(Symbol::GreaterEqual) => Some(ExpressionOp::GreaterEqual),
        TokenKindView::Symbol(Symbol::Plus) => Some(ExpressionOp::Plus),
        TokenKindView::Symbol(Symbol::Minus) => Some(ExpressionOp::Minus),
        _ => None,
    }
}

/// How tightly an operator binds: `and`, `or` and `in` least, the comparisons more,
/// `+` and `-` most.
pub open spec fn precedence(op: ExpressionOp) -> nat {
    match op {
        ExpressionOp::And | ExpressionOp::Or | ExpressionOp::In => 1,
        ExpressionOp::Equal
        | ExpressionOp::Less
        | ExpressionOp::LessEqual
        | ExpressionOp::Greater
        | ExpressionOp::GreaterEqual => 2,
        ExpressionOp::Plus | ExpressionOp::Minus => 3,
    }
}

/// An operand: a literal, `count(*)`, a subquery or an expression in parentheses, or
/// a column reference.
pub open spec fn parse_term(tokens: Seq<TokenView>, pos: int) -> Result<
    (ExpressionView, int),
    ParseError,
>
    decreases rest(tokens, pos), 0nat,
{
    match kind_at(tokens, pos) {
        TokenKindView::Number(n) => Ok((ExpressionView::Literal(ValueView::Number(n)), pos + 1)),
        TokenKindView::Text(s) => Ok((ExpressionView::Literal(ValueView::Text(s)), pos + 1)),
        TokenKindView::Keyword(Keyword::True) => Ok(
            (ExpressionView::Literal(ValueView::Boolean(true)), pos + 1),
        ),
        TokenKindView::Keyword(Keyword::False) => Ok(
            (ExpressionView::Literal(ValueView::Boolean(false)), pos + 1),
        ),
        TokenKindView::Keyword(Keyword::Count) => if !is_symbol(
            tokens,
            pos + 1,
            Symbol::LeftParen,
        ) {
            fail(tokens, pos + 1, Expected::Symbol(Symbol::LeftParen))
        } else if !is_symbol(tokens, pos + 2, Symbol::Star) {
            fail(tokens, pos + 2, Expected::Symbol(Symbol::Star))
        } else if !is_symbol(tokens, pos + 3, Symbol::RightParen) {
            fail(tokens, pos + 3, Expected::Symbol(Symbol::RightParen))
        } else {
            Ok((ExpressionView::CountStar, pos + 4))
        },
        TokenKindView::Symbol(Symbol::LeftParen) => if is_keyword(tokens, pos + 1, Keyword::Select) {
            match parse_select(tokens, pos + 1) {
                Err(e) => Err(e),
                Ok((query, next)) => if is_symbol(tokens, next, Symbol::RightParen) {
                    Ok((ExpressionView::Subquery(Box::new(query)), next + 1))
                } else {
                    fail(tokens, next, Expected::Symbol(Symbol::RightParen))
                },
            }
        } else {
            match parse_expression(tokens, pos + 1, 0) {
                Err(e) => Err(e),
                Ok((expr, next)) => if is_symbol(tokens, next, Symbol::RightParen) {
                    Ok((expr, next + 1))
                } else {
                    fail(tokens, next, Expected::Symbol(Symbol::RightParen))
                },
            }
        },
        _ => match parse_column_identifier(tokens, pos) {
            Err(e) => Err(e),
            Ok((identifier, next)) => Ok((ExpressionView::ColumnIdentifier(identifier), next)),
        },
    }
}

/// An expression whose operators all bind at least as tightly as `min`: an operand,
/// followed by operators with their right operands.
pub open spec fn parse_expression(tokens: Seq<TokenView>, pos: int, min: nat) -> Result<
    (ExpressionView, int),
    ParseError,
>
    decreases rest(tokens, pos), 2nat,
{
    match parse_term(tokens, pos) {
        Err(e) => Err(e),
        Ok((left, next)) => if advances(tokens, pos, next) {
            climb(tokens, next, left, min)
        } else {
            fail(tokens, pos, Expected::Expression)
        },
    }
}

/// The expression that begins with `left` and goes on at `pos`. An operator that binds
/// at least as tightly as `min` takes `left` as its left operand, and as its right
/// operand the expression behind it whose operators all bind more tightly than
/// itself; so operators that bind alike group from the left. The right operand of
/// `in` has to be a subquery.
pub open spec fn climb(tokens: Seq<TokenView>, pos: int, left: ExpressionView, min: nat) -> Result<
    (ExpressionView, int),
    ParseError,
>
    decreases rest(tokens, pos), 1nat,
{
    match operator_at(tokens, pos) {
        Some(op) => if precedence(op) >= min {
            match parse_expression(tokens, pos + 1, precedence(op) + 1) {
                Err(e) => Err(e),
                Ok((right, next)) => if op == ExpressionOp::In && !(right is Subquery) {
                    fail(tokens, pos + 1, Expected::Subquery)
                } else if advances(tokens, pos, next) {
                    climb(
                        tokens,
                        next,
                        ExpressionView::BinaryOp {
                            op: op,
                            left: Box::new(left),
                            right: Box::new(right),
                        },
                        min,
                    )
                } else {
                    fail(tokens, pos, Expected::Expression)
                },
            }
        } else {
            Ok((left, pos))
        },
        None => Ok((left, pos)),
    }
}

/// The expressions behind those found so far: each behind a comma.
pub open spec fn parse_more_expressions(
    tokens: Seq<TokenView>,
    pos: int,
    found: Seq<ExpressionView>,
) -> Result<(Seq<ExpressionView>, int), ParseError>
    decreases rest(tokens, pos), 3nat,
{
    if is_symbol(tokens, pos, Symbol::Comma) {
        match parse_expression(tokens, pos + 1, 0) {
            Err(e) => Err(e),
            Ok((expr, next)) => if advances(tokens, pos, next) {
                parse_more_expressions(tokens, next, found.push(expr))
            } else {
                fail(tokens, pos, Expected::Expression)
            },
        }
    } else {
        Ok((found, pos))
    }
}

/// One or more expressions, separated by commas.
pub open spec fn parse_expression_list(tokens: Seq<TokenView>, pos: int) -> Result<
    (Seq<ExpressionView>, int),
    ParseError,
>
    decreases rest(tokens, pos), 4nat,
{
    match parse_expression(tokens, pos, 0) {
        Err(e) => Err(e),
        Ok((expr, next)) => if advances(tokens, pos, next) {
            parse_more_expressions(tokens, next, seq![expr])
        } else {
            fail(tokens, pos, Expected::Expression)
        },
    }
}

/// The kind of join that begins at a place, if one does.
pub open spec fn join_kind_at(tokens: Seq<TokenView>, pos: int) -> Option<JoinKind> {
    match kind_at(tokens, pos) {
        TokenKindView::Keyword(Keyword::Inner) => Some(JoinKind::Inner),
        TokenKindView::Keyword(Keyword::Left) => Some(JoinKind::Left),
        TokenKindView::Keyword(Keyword::Right) => Some(JoinKind::Right),
        _ => None,
    }
}

/// The joins behind those found so far: each `inner`, `left` or `right`, then
/// `join`, a table, `on` and a condition.
pub open spec fn parse_joins(tokens: Seq<TokenView>, pos: int, found: Seq<JoinView>) -> Result<
    (Seq<JoinView>, int),
    ParseError,
>
    decreases rest(tokens, pos), 3nat,
{
    match join_kind_at(tokens, pos) {
        None => Ok((found, pos)),
        Some(kind) => if !is_keyword(tokens, pos + 1, Keyword::Join) {
            fail(tokens, pos + 1, Expected::Keyword(Keyword::Join))
        } else {
            match parse_table_identifier(tokens, pos + 2) {
                Err(e) => Err(e),
                Ok((table, at)) => if !is_keyword(tokens, at, Keyword::On) {
                    fail(tokens, at, Expected::Keyword(Keyword::On))
                } else if !advances(tokens, pos, at) {
                    fail(tokens, pos, Expected::Expression)
                } else {
                    match parse_expression(tokens, at + 1, 0) {
                        Err(e) => Err(e),
                        Ok((condition, next)) => if advances(tokens, pos, next) {
                            parse_joins(
                                tokens,
                                next,
                                found.push(
                                    JoinView { kind: kind, table: table, condition: condition },
                                ),
                            )
                        } else {
                            fail(tokens, pos, Expected::Expression)
                        },
                    }
                },
            }
        },
    }
}

/// The condition of a query, where `where` stands.
pub open spec fn parse_where(tokens: Seq<TokenView>, pos: int) -> Result<
    (Option<ExpressionView>, int),
    ParseError,
>
    decreases rest(tokens, pos), 3nat,
{
    if is_keyword(tokens, pos, Keyword::Where) {
        match parse_expression(tokens, pos + 1, 0) {
            Err(e) => Err(e),
            Ok((expr, next)) => Ok((Some(expr), next)),
        }
    } else {
        Ok((None, pos))
    }
}

/// The direction of a sort: `asc` or `desc`, and ascending where neither stands.
pub open spec fn parse_direction(tokens: Seq<TokenView>, pos: int) -> (OrderByDirection, int) {
    if is_keyword(tokens, pos, Keyword::Asc) {
        (OrderByDirection::Asc, pos + 1)
    } else if is_keyword(tokens, pos, Keyword::Desc) {
        (OrderByDirection::Desc, pos + 1)
    } else {
        (OrderByDirection::Asc, pos)
    }
}

/// The sort of a query, where `order by` stands.
pub open spec fn parse_order(tokens: Seq<TokenView>, pos: int) -> Result<
    (Option<OrderByView>, int),
    ParseError,
>
    decreases rest(tokens, pos), 3nat,
{
    if is_keyword(tokens, pos, Keyword::Order) {
        if !is_keyword(tokens, pos + 1, Keyword::By) {
            fail(tokens, pos + 1, Expected::Keyword(Keyword::By))
        } else {
            match parse_expression(tokens, pos + 2, 0) {
                Err(e) => Err(e),
                Ok((expr, next)) => {
                    let (direction, after) = parse_direction(tokens, next);
                    Ok((Some(OrderByView { expr: expr, direction: direction }), after))
                },
            }
        }
    } else {
        Ok((None, pos))
    }
}

/// The limit of a query, where `limit` stands.
pub open spec fn parse_limit(tokens: Seq<TokenView>, pos: int) -> Result<
    (Option<ExpressionView>, int),
    ParseError,
>
    decreases rest(tokens, pos), 3nat,
{
    if is_keyword(tokens, pos, Keyword::Limit) {
        match parse_expression(tokens, pos + 1, 0) {
            Err(e) => Err(e),
            Ok((expr, next)) => Ok((Some(expr), next)),
        }
    } else {
        Ok((None, pos))
    }
}

/// A select query: `select`, a list of expressions, `from`, a table and its joins,
/// then, each optional and in this order, `where` with a condition, `order by` with
/// an expression and a direction, and `limit` with an expression.
pub open spec fn parse_select(tokens: Seq<TokenView>, pos: int) -> Result<
    (SelectQueryView, int),
    ParseError,
>
    decreases rest(tokens, pos), 5nat,
{
    if !is_keyword(tokens, pos, Keyword::Select) {
        fail(tokens, pos, Expected::Keyword(Keyword::Select))
    } else {
        match parse_expression_list(tokens, pos + 1) {
            Err(e) => Err(e),
            Ok((list, at_from)) => if !is_keyword(tokens, at_from, Keyword::From) {
                fail(tokens, at_from, Expected::Keyword(Keyword::From))
            } else {
                match parse_table_identifier(tokens, at_from + 1) {
                    Err(e) => Err(e),
                    Ok((root, at_joins)) => if !advances(tokens, pos, at_joins) {
                        fail(tokens, pos, Expected::Query)
                    } else {
                        match parse_joins(tokens, at_joins, Seq::empty()) {
                            Err(e) => Err(e),
                            Ok((joins, at_where)) => if !advances(tokens, pos, at_where) {
                                fail(tokens, pos, Expected::Query)
                            } else {
                                match parse_where(tokens, at_where) {
                                    Err(e) => Err(e),
                                    Ok((filter, at_order)) => if !advances(
                                        tokens,
                                        pos,
                                        at_order,
                                    ) {
                                        fail(tokens, pos, Expected::Query)
                                    } else {
                                        match parse_order(tokens, at_order) {
                                            Err(e) => Err(e),
                                            Ok((sort, at_limit)) => if !advances(
                                                tokens,
                                                pos,
                                                at_limit,
                                            ) {
                                                fail(tokens, pos, Expected::Query)
                                            } else {
                                                match parse_limit(tokens, at_limit) {
                                                    Err(e) => Err(e),
                                                    Ok((limit, next)) => Ok(
                                                        (
                                                            SelectQueryView {
                                                                select_list: list,
                                                                root_table: root,
                                                                joins: joins,
                                                                filter: filter,
                                                                sort: sort,
                                                                limit: limit,
                                                            },
                                                            next,
                                                        ),
                                                    ),
                                                }
                                            },
                                        }
                                    },
                                }
                            },
                        }
                    },
                }
            },
        }
    }
}

/// The identifiers behind those found so far: each behind a comma.
pub open spec fn parse_more_identifiers(tokens: Seq<TokenView>, pos: int, found: Seq<Seq<char>>) -> Result<
    (Seq<Seq<char>>, int),
    ParseError,
>
    decreases rest(tokens, pos),
{
    if is_symbol(tokens, pos, Symbol::Comma) {
        match parse_identifier(tokens, pos + 1) {
            Err(e) => Err(e),
            Ok((name, next)) => parse_more_identifiers(tokens, next, found.push(name)),
        }
    } else {
        Ok((found, pos))
    }
}

/// The literals behind those found so far: each behind a comma.
pub open spec fn parse_more_literals(tokens: Seq<TokenView>, pos: int, found: Seq<ValueView>) -> Result<
    (Seq<ValueView>, int),
    ParseError,
>
    decreases rest(tokens, pos),
{
    if is_symbol(tokens, pos, Symbol::Comma) {
        match parse_literal(tokens, pos + 1) {
            Err(e) => Err(e),
            Ok((value, next)) => parse_more_literals(tokens, next, found.push(value)),
        }
    } else {
        Ok((found, pos))
    }
}

/// An insert query: `insert into`, a table, a list of column names in parentheses,
/// `values`, and a list of literals in parentheses.
#[verifier::opaque]
pub open spec fn parse_insert(tokens: Seq<TokenView>, pos: int) -> Result<
    (InsertQueryView, int),
    ParseError,
> {
    if !is_keyword(tokens, pos, Keyword::Insert) {
        fail(tokens, pos, Expected::Keyword(Keyword::Insert))
    } else if !is_keyword(tokens, pos + 1, Keyword::Into) {
        fail(tokens, pos + 1, Expected::Keyword(Keyword::Into))
    } else {
        match parse_identifier(tokens, pos + 2) {
            Err(e) => Err(e),
            Ok((table, at_open)) => if !is_symbol(tokens, at_open, Symbol::LeftParen) {
                fail(tokens, at_open, Expected::Symbol(Symbol::LeftParen))
            } else {
                match parse_identifier(tokens, at_open + 1) {
                    Err(e) => Err(e),
                    Ok((first, at_more)) => match parse_more_identifiers(
                        tokens,
                        at_more,
                        seq![first],
                    ) {
                        Err(e) => Err(e),
                        Ok((columns, at_close)) => if !is_symbol(
                            tokens,
                            at_close,
                            Symbol::RightParen,
                        ) {
                            fail(tokens, at_close, Expected::Symbol(Symbol::RightParen))
                        } else if !is_keyword(tokens, at_close + 1, Keyword::Values) {
                            fail(tokens, at_close + 1, Expected::Keyword(Keyword::Values))
                        } else if !is_symbol(tokens, at_close + 2, Symbol::LeftParen) {
                            fail(tokens, at_close + 2, Expected::Symbol(Symbol::LeftParen))
                        } else {
                            match parse_literal(tokens, at_close + 3) {
                                Err(e) => Err(e),
                                Ok((value, at_values)) => match parse_more_literals(
                                    tokens,
                                    at_values,
                                    seq![value],
                                ) {
                                    Err(e) => Err(e),
                                    Ok((values, at_end)) => if !is_symbol(
                                        tokens,
                                        at_end,
                                        Symbol::RightParen,
                                    ) {
                                        fail(tokens, at_end, Expected::Symbol(Symbol::RightParen))
                                    } else {
                                        Ok(
                                            (
                                                InsertQueryView {
                                                    table: table,
                                                    columns: columns,
                                                    values: values,
                                                },
                                                at_end + 1,
                                            ),
                                        )
                                    },
                                },
                            }
                        },
                    },
                }
            },
        }
    }
}

/// The type that a word names: `number`, `text` or `boolean`, in any mix of upper and
/// lower case.
pub open spec fn datatype_of_word(word: Seq<char>) -> Option<Datatype> {
    if is_word(word, "number"@) {
        Some(Datatype::Number)
    } else if is_word(word, "text"@) {
        Some(Datatype::Text)
    } else if is_word(word, "boolean"@) {
        Some(Datatype::Boolean)
    } else {
        None
    }
}

/// A column of a table that is created: its name and its type.
pub open spec fn parse_column_definition(tokens: Seq<TokenView>, pos: int) -> Result<
    (ColumnView, int),
    ParseError,
> {
    match parse_identifier(tokens, pos) {
        Err(e) => Err(e),
        Ok((name, at_type)) => match kind_at(tokens, at_type) {
            TokenKindView::Identifier(word) => match datatype_of_word(word) {
                Some(datatype) => Ok((ColumnView { name: name, datatype: datatype }, at_type + 1)),
                None => fail(tokens, at_type, Expected::Datatype),
            },
            _ => fail(tokens, at_type, Expected::Datatype),
        },
    }
}

/// The column definitions behind those found so far: each behind a comma.
pub open spec fn parse_more_definitions(tokens: Seq<TokenView>, pos: int, found: Seq<ColumnView>) -> Result<
    (Seq<ColumnView>, int),
    ParseError,
>
    decreases rest(tokens, pos),
{
    if is_symbol(tokens, pos, Symbol::Comma) {
        match parse_column_definition(tokens, pos + 1) {
            Err(e) => Err(e),
            Ok((column, next)) => parse_more_definitions(tokens, next, found.push(column)),
        }
    } else {
        Ok((found, pos))
    }
}

/// A create table query: `create table`, a name, and a list of column definitions in
/// parentheses.
#[verifier::opaque]
pub open spec fn parse_create_table(tokens: Seq<TokenView>, pos: int) -> Result<
    (CreateTableQueryView, int),
    ParseError,
> {
    if !is_keyword(tokens, pos, Keyword::Create) {
        fail(tokens, pos, Expected::Keyword(Keyword::Create))
    } else if !is_keyword(tokens, pos + 1, Keyword::Table) {
        fail(tokens, pos + 1, Expected::Keyword(Keyword::Table))
    } else {
        match parse_identifier(tokens, pos + 2) {
            Err(e) => Err(e),
            Ok((name, at_open)) => if !is_symbol(tokens, at_open, Symbol::LeftParen) {
                fail(tokens, at_open, Expected::Symbol(Symbol::LeftParen))
            } else {
                match parse_column_definition(tokens, at_open + 1) {
                    Err(e) => Err(e),
                    Ok((first, at_more)) => match parse_more_definitions(
                        tokens,
                        at_more,
                        seq![first],
                    ) {
                        Err(e) => Err(e),
                        Ok((columns, at_close)) => if !is_symbol(
                            tokens,
                            at_close,
                            Symbol::RightParen,
                        ) {
                            fail(tokens, at_close, Expected::Symbol(Symbol::RightParen))
                        } else {
                            Ok(
                                (
                                    CreateTableQueryView { table_name: name, columns: columns },
                                    at_close + 1,
                                ),
                            )
                        },
                    },
                }
            },
        }
    }
}

/// An assignment: a column name, `=` and a literal.
pub open spec fn parse_assignment(tokens: Seq<TokenView>, pos: int) -> Result<
    (AssignmentView, int),
    ParseError,
> {
    match parse_identifier(tokens, pos) {
        Err(e) => Err(e),
        Ok((column, at_equal)) => if !is_symbol(tokens, at_equal, Symbol::Equal) {
            fail(tokens, at_equal, Expected::Symbol(Symbol::Equal))
        } else {
            match parse_literal(tokens, at_equal + 1) {
                Err(e) => Err(e),
                Ok((value, next)) => Ok((AssignmentView { column: column, value: value }, next)),
            }
        },
    }
}

/// The assignments behind those found so far: each behind a comma.
pub open spec fn parse_more_assignments(
    tokens: Seq<TokenView>,
    pos: int,
    found: Seq<AssignmentView>,
) -> Result<(Seq<AssignmentView>, int), ParseError>
    decreases rest(tokens, pos),
{
    if is_symbol(tokens, pos, Symbol::Comma) {
        match parse_assignment(tokens, pos + 1) {
            Err(e) => Err(e),
            Ok((assignment, next)) => parse_more_assignments(tokens, next, found.push(assignment)),
        }
    } else {
        Ok((found, pos))
    }
}

/// An update query: `update`, a table, `set`, a list of assignments, `where` and a
/// condition.
#[verifier::opaque]
pub open spec fn parse_update(tokens: Seq<TokenView>, pos: int) -> Result<
    (UpdateQueryView, int),
    ParseError,
> {
    if !is_keyword(tokens, pos, Keyword::Update) {
        fail(tokens, pos, Expected::Keyword(Keyword::Update))
    } else {
        match parse_identifier(tokens, pos + 1) {
            Err(e) => Err(e),
            Ok((table, at_set)) => if !is_keyword(tokens, at_set, Keyword::SetTo) {
                fail(tokens, at_set, Expected::Keyword(Keyword::SetTo))
            } else {
                match parse_assignment(tokens, at_set + 1) {
                    Err(e) => Err(e),
                    Ok((first, at_more)) => match parse_more_assignments(
                        tokens,
                        at_more,
                        seq![first],
                    ) {
                        Err(e) => Err(e),
                        Ok((assignments, at_where)) => if !is_keyword(
                            tokens,
                            at_where,
                            Keyword::Where,
                        ) {
                            fail(tokens, at_where, Expected::Keyword(Keyword::Where))
                        } else {
                            match parse_expression(tokens, at_where + 1, 0) {
                                Err(e) => Err(e),
                                Ok((filter, next)) => Ok(
                                    (
                                        UpdateQueryView {
                                            table: table,
                                            assignments: assignments,
                                            filter: filter,
                                        },
                                        next,
                                    ),
                                ),
                            }
                        },
                    },
                }
            },
        }
    }
}

/// A query of any kind, told by its first keyword.
#[verifier::opaque]
pub open spec fn parse_query(tokens: Seq<TokenView>, pos: int) -> Result<
    (QueryView, int),
    ParseError,
> {
    match kind_at(tokens, pos) {
        TokenKindView::Keyword(Keyword::Select) => match parse_select(tokens, pos) {
            Err(e) => Err(e),
            Ok((q, next)) => Ok((QueryView::Select(q), next)),
        },
        TokenKindView::Keyword(Keyword::Insert) => match parse_insert(tokens, pos) {
            Err(e) => Err(e),
            Ok((q, next)) => Ok((QueryView::Insert(q), next)),
        },
        TokenKindView::Keyword(Keyword::Create) => match parse_create_table(tokens, pos) {
            Err(e) => Err(e),
            Ok((q, next)) => Ok((QueryView::CreateTable(q), next)),
        },
        TokenKindView::Keyword(Keyword::Update) => match parse_update(tokens, pos) {
            Err(e) => Err(e),
            Ok((q, next)) => Ok((QueryView::Update(q), next)),
        },
        _ => fail(tokens, pos, Expected::Query),
    }
}

/// The queries from `pos` on, behind those found so far: each followed by a
/// semicolon, up to the end of the tokens.
pub open spec fn parse_queries_from(tokens: Seq<TokenView>, pos: int, found: Seq<QueryView>) -> Result<
    Seq<QueryView>,
    ParseError,
>
    decreases rest(tokens, pos),
{
    match parse_query(tokens, pos) {
        Err(e) => Err(e),
        Ok((query, at_end)) => if !is_symbol(tokens, at_end, Symbol::Semicolon) {
            fail(tokens, at_end, Expected::Symbol(Symbol::Semicolon))
        } else if !advances(tokens, pos, at_end) {
            fail(tokens, pos, Expected::Query)
        } else if kind_at(tokens, at_end + 1) is End {
            Ok(found.push(query))
        } else {
            parse_queries_from(tokens, at_end + 1, found.push(query))
        },
    }
}

/// The queries that a text holds: one or more, each followed by a semicolon.
pub open spec fn parse_text(text: Seq<char>) -> Result<Seq<QueryView>, ParseError> {
    match tokens_of(text) {
        Err(e) => Err(e),
        Ok(tokens) => parse_queries_from(tokens, 0, Seq::empty()),
    }
}

} // verus!
