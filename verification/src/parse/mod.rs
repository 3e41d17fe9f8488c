//! Parsing of query text.

pub mod ast;
pub mod grammar;
pub mod lexer;
pub mod parser;

use crate::parse::ast::view::QueryView;
use crate::parse::ast::Queries;
use crate::parse::grammar::parse_text;
use crate::parse::lexer::lex;
use crate::parse::lexer::ParseError;
use crate::parse::parser::parse_tokens;
use vstd::prelude::*;

verus! {

/// Parses the queries of a text: one or more, each followed by a semicolon.
///
/// What comes back is determined by the text alone: the queries that the grammar
/// gives for it, in their order, or the first place at which the text does not fit the
/// grammar, with what was expected there.
pub fn parse_queries(source: &str) -> (res: Result<Queries, ParseError>)
    ensures
        match res {
            Ok(queries) => parse_text(source@) == Ok::<Seq<QueryView>, ParseError>(queries@),
            Err(e) => parse_text(source@) == Err::<Seq<QueryView>, ParseError>(e),
        },
{
    match lex(source) {
        Err(e) => Err(e),
        Ok(tokens) => parse_tokens(&tokens),
    }
}

} // verus!
