//! From the characters of a query text to its tokens.

use crate::text::chars_of;
use crate::text::string_of;
use crate::text::decimal;
use crate::text::decimal_string;
use vstd::prelude::*;

verus! {

/// The reserved words. They are recognised in any mix of upper and lower case, and
/// none of them can be an identifier.
#[derive(Clone, Copy, Debug, PartialEq, Eq, Structural)]
pub enum Keyword {
    Select,
    From,
    Where,
    Order,
    By,
    Limit,
    Insert,
    Into,
    Values,
    Create,
    Table,
    Update,
    SetTo,
    Inner,
    Left,
    Right,
    Join,
    On,
    And,
    Or,
    In,
    Asc,
    Desc,
    True,
    False,
    Count,
}

/// The punctuation and the operator signs.
#[derive(Clone, Copy, Debug, PartialEq, Eq, Structural)]
pub enum Symbol {
    LeftParen,
    RightParen,
    Comma,
    Semicolon,
    Dot,
    Star,
    Equal,
    Less,
    LessEqual,
    Greater,
    GreaterEqual,
    Plus,
    Minus,
}

/// What was expected at the place where parsing failed.
#[derive(Clone, Copy, Debug, PartialEq, Eq, Structural)]
pub enum Expected {
    /// The beginning of a token.
    Token,
    /// The quote that ends a string.
    StringEnd,
    /// A number that fits 32 bits.
    Number,
    /// The beginning of a query.
    Query,
    Keyword(Keyword),
    Symbol(Symbol),
    Identifier,
    Literal,
    Expression,
    /// A subquery in parentheses, as the right operand of `in`.
    Subquery,
    /// `number`, `text` or `boolean`.
    Datatype,
}

/// Why a text could not be parsed: the first place at which it is not well formed,
/// counted in characters from the start, and what was expected there.
#[derive(Clone, Copy, Debug, PartialEq, Eq, Structural)]
pub struct ParseError {
    pub position: usize,
    pub expected: Expected,
}

/// The word of a keyword, in lower case.
pub open spec fn keyword_text(keyword: Keyword) -> Seq<char> {
    match keyword {
        Keyword::Select => "select"@,
        Keyword::From => "from"@,
        Keyword::Where => "where"@,
        Keyword::Order => "order"@,
        Keyword::By => "by"@,
        Keyword::Limit => "limit"@,
        Keyword::Insert => "insert"@,
        Keyword::Into => "into"@,
        Keyword::Values => "values"@,
        Keyword::Create => "create"@,
        Keyword::Table => "table"@,
        Keyword::Update => "update"@,
        Keyword::SetTo => "set"@,
        Keyword::Inner => "inner"@,
        Keyword::Left => "left"@,
        Keyword::Right => "right"@,
        Keyword::Join => "join"@,
        Keyword::On => "on"@,
        Keyword::And => "and"@,
        Keyword::Or => "or"@,
        Keyword::In => "in"@,
        Keyword::Asc => "asc"@,
        Keyword::Desc => "desc"@,
        Keyword::True => "true"@,
        Keyword::False => "false"@,
        Keyword::Count => "count"@,
    }
}

/// The characters of a sign.
pub open spec fn symbol_text(symbol: Symbol) -> Seq<char> {
    match symbol {
        Symbol::LeftParen => "("@,
        Symbol::RightParen => ")"@,
        Symbol::Comma => ","@,
        Symbol::Semicolon => ";"@,
        Symbol::Dot => "."@,
        Symbol::Star => "*"@,
        Symbol::Equal => "="@,
        Symbol::Less => "<"@,
        Symbol::LessEqual => "<="@,
        Symbol::Greater => ">"@,
        Symbol::GreaterEqual => ">="@,
        Symbol::Plus => "+"@,
        Symbol::Minus => "-"@,
    }
}

/// What was expected, in words.
pub open spec fn expected_text(expected: Expected) -> Seq<char> {
    match expected {
        Expected::Token => "a token"@,
        Expected::StringEnd => "the quote that ends a text"@,
        Expected::Number => "a number that fits 32 bits"@,
        Expected::Query => "a query"@,
        Expected::Identifier => "an identifier"@,
        Expected::Literal => "a literal"@,
        Expected::Expression => "an expression"@,
        Expected::Subquery => "a subquery in parentheses"@,
        Expected::Datatype => "a type"@,
        Expected::Keyword(k) => keyword_text(k),
        Expected::Symbol(s) => symbol_text(s),
    }
}

/// The message of a parse error: the place, counted in characters, and what was
/// expected there.
pub open spec fn parse_error_text(error: ParseError) -> Seq<char> {
    "The text is not well formed at character "@ + decimal(error.position as nat)
        + ": expected "@ + expected_text(error.expected)
}

impl Keyword {
    /// The word of this keyword, in lower case.
    pub fn as_str(&self) -> (s: &'static str)
        ensures
            s@ == keyword_text(*self),
    {
        match self {
            Keyword::Select => "select",
            Keyword::From => "from",
            Keyword::Where => "where",
            Keyword::Order => "order",
            Keyword::By => "by",
            Keyword::Limit => "limit",
            Keyword::Insert => "insert",
            Keyword::Into => "into",
            Keyword::Values => "values",
            Keyword::Create => "create",
            Keyword::Table => "table",
            Keyword::Update => "update",
            Keyword::SetTo => "set",
            Keyword::Inner => "inner",
            Keyword::Left => "left",
            Keyword::Right => "right",
            Keyword::Join => "join",
            Keyword::On => "on",
            Keyword::And => "and",
            Keyword::Or => "or",
            Keyword::In => "in",
            Keyword::Asc => "asc",
            Keyword::Desc => "desc",
            Keyword::True => "true",
            Keyword::False => "false",
            Keyword::Count => "count",
        }
    }
}

impl Symbol {
    /// The characters of this sign.
    pub fn as_str(&self) -> (s: &'static str)
        ensures
            s@ == symbol_text(*self),
    {
        match self {
            Symbol::LeftParen => "(",
            Symbol::RightParen => ")",
            Symbol::Comma => ",",
            Symbol::Semicolon => ";",
            Symbol::Dot => ".",
            Symbol::Star => "*",
            Symbol::Equal => "=",
            Symbol::Less => "<",
            Symbol::LessEqual => "<=",
            Symbol::Greater => ">",
            Symbol::GreaterEqual => ">=",
            Symbol::Plus => "+",
            Symbol::Minus => "-",
        }
    }
}

impl Expected {
    /// What was expected, in words.
    pub fn as_str(&self) -> (s: &'static str)
        ensures
            s@ == expected_text(*self),
    {
        match self {
            Expected::Token => "a token",
            Expected::StringEnd => "the quote that ends a text",
            Expected::Number => "a number that fits 32 bits",
            Expected::Query => "a query",
            Expected::Identifier => "an identifier",
            Expected::Literal => "a literal",
            Expected::Expression => "an expression",
            Expected::Subquery => "a subquery in parentheses",
            Expected::Datatype => "a type",
            Expected::Keyword(k) => k.as_str(),
            Expected::Symbol(s) => s.as_str(),
        }
    }
}

impl ParseError {
    /// The message of this error.
    pub fn to_string(&self) -> (s: String)
        ensures
            s@ == parse_error_text(*self),
    {
        let mut s = String::from_str("The text is not well formed at character ");
        s.append(decimal_string(self.position as u64).as_str());
        s.append(": expected ");
        s.append(self.expected.as_str());
        s
    }
}

/// The kinds of token. `End` stands behind the last token of a text.
#[derive(Debug)]
pub enum TokenKind {
    Keyword(Keyword),
    Identifier(String),
    Number(u32),
    Text(String),
    Symbol(Symbol),
    End,
}

/// A token and the place at which it starts.
#[derive(Debug)]
pub struct Token {
    pub kind: TokenKind,
    pub start: usize,
}

/// What a `TokenKind` stands for.
pub enum TokenKindView {
    Keyword(Keyword),
    Identifier(Seq<char>),
    Number(u32),
    Text(Seq<char>),
    Symbol(Symbol),
    End,
}

/// What a `Token` stands for.
pub struct TokenView {
    pub kind: TokenKindView,
    pub start: usize,
}

impl View for TokenKind {
    type V = TokenKindView;

    open spec fn view(&self) -> TokenKindView {
        match self {
            TokenKind::Keyword(k) => TokenKindView::Keyword(*k),
            TokenKind::Identifier(s) => TokenKindView::Identifier(s@),
            TokenKind::Number(n) => TokenKindView::Number(*n),
            TokenKind::Text(s) => TokenKindView::Text(s@),
            TokenKind::Symbol(s) => TokenKindView::Symbol(*s),
            TokenKind::End => TokenKindView::End,
        }
    }
}

impl View for Token {
    type V = TokenView;

    open spec fn view(&self) -> TokenView {
        TokenView { kind: self.kind@, start: self.start }
    }
}

/// The views of a sequence of tokens.
pub open spec fn tokens_view(tokens: Seq<Token>) -> Seq<TokenView> {
    tokens.map_values(|t: Token| t@)
}

/// Whether a character separates tokens.
pub open spec fn is_space(c: char) -> bool {
    c == ' ' || c == '\t' || c == '\n' || c == '\r'
}

/// Whether a character is a decimal digit.
pub open spec fn is_digit(c: char) -> bool {
    '0' <= c && c <= '9'
}

/// Whether a word may begin with the character.
pub open spec fn is_word_start(c: char) -> bool {
    ('a' <= c && c <= 'z') || ('A' <= c && c <= 'Z') || c == '_'
}

/// Whether a word may go on with the character.
pub open spec fn is_word_char(c: char) -> bool {
    is_word_start(c) || is_digit(c)
}

/// The lower case form of a letter; any other character itself.
pub open spec fn lower(c: char) -> char {
    if 'A' <= c && c <= 'Z' {
        ((c as u8) + 32) as char
    } else {
        c
    }
}

/// Whether a word is the given lower case word, but for the case of its letters.
pub open spec fn is_word(word: Seq<char>, lowered: Seq<char>) -> bool {
    &&& word.len() == lowered.len()
    &&& forall|i: int| 0 <= i < word.len() ==> lower(#[trigger] word[i]) == lowered[i]
}

/// The keyword that a word is, if it is one.
pub open spec fn keyword_of(word: Seq<char>) -> Option<Keyword> {
    if is_word(word, "select"@) {
        Some(Keyword::Select)
    } else if is_word(word, "from"@) {
        Some(Keyword::From)
    } else if is_word(word, "where"@) {
        Some(Keyword::Where)
    } else if is_word(word, "order"@) {
        Some(Keyword::Order)
    } else if is_word(word, "by"@) {
        Some(Keyword::By)
    } else if is_word(word, "limit"@) {
        Some(Keyword::Limit)
    } else if is_word(word, "insert"@) {
        Some(Keyword::Insert)
    } else if is_word(word, "into"@) {
        Some(Keyword::Into)
    } else if is_word(word, "values"@) {
        Some(Keyword::Values)
    } else if is_word(word, "create"@) {
        Some(Keyword::Create)
    } else if is_word(word, "table"@) {
        Some(Keyword::Table)
    } else if is_word(word, "update"@) {
        Some(Keyword::Update)
    } else if is_word(word, "set"@) {
        Some(Keyword::SetTo)
    } else if is_word(word, "inner"@) {
        Some(Keyword::Inner)
    } else if is_word(word, "left"@) {
        Some(Keyword::Left)
    } else if is_word(word, "right"@) {
        Some(Keyword::Right)
    } else if is_word(word, "join"@) {
        Some(Keyword::Join)
    } else if is_word(word, "on"@) {
        Some(Keyword::On)
    } else if is_word(word, "and"@) {
        Some(Keyword::And)
    } else if is_word(word, "or"@) {
        Some(Keyword::Or)
    } else if is_word(word, "in"@) {
        Some(Keyword::In)
    } else if is_word(word, "asc"@) {
        Some(Keyword::Asc)
    } else if is_word(word, "desc"@) {
        Some(Keyword::Desc)
    } else if is_word(word, "true"@) {
        Some(Keyword::True)
    } else if is_word(word, "false"@) {
        Some(Keyword::False)
    } else if is_word(word, "count"@) {
        Some(Keyword::Count)
    } else {
        None
    }
}

/// The first place from `pos` on that holds no space.
pub open spec fn skip_space(chars: Seq<char>, pos: int) -> int
    decreases chars.len() - pos,
{
    if 0 <= pos < chars.len() && is_space(chars[pos]) {
        skip_space(chars, pos + 1)
    } else {
        pos
    }
}

/// The first place from `pos` on that holds no character of a word.
pub open spec fn word_end(chars: Seq<char>, pos: int) -> int
    decreases chars.len() - pos,
{
    if 0 <= pos < chars.len() && is_word_char(chars[pos]) {
        word_end(chars, pos + 1)
    } else {
        pos
    }
}

/// The first place from `pos` on that holds no digit.
pub open spec fn digits_end(chars: Seq<char>, pos: int) -> int
    decreases chars.len() - pos,
{
    if 0 <= pos < chars.len() && is_digit(chars[pos]) {
        digits_end(chars, pos + 1)
    } else {
        pos
    }
}

/// The first place from `pos` on that holds a quote, if there is one.
pub open spec fn quote_end(chars: Seq<char>, pos: int) -> Option<int>
    decreases chars.len() - pos,
{
    if 0 <= pos < chars.len() {
        if chars[pos] == '\'' {
            Some(pos)
        } else {
            quote_end(chars, pos + 1)
        }
    } else {
        None
    }
}

/// The number that the digits from `from` up to `to` denote in base ten.
pub open spec fn number_value(chars: Seq<char>, from: int, to: int) -> nat
    decreases to - from,
{
    if to <= from {
        0
    } else {
        number_value(chars, from, to - 1) * 10 + ((chars[to - 1] as u32) - ('0' as u32)) as nat
    }
}

/// The sign at a place, with the number of characters that it takes.
pub open spec fn symbol_at(chars: Seq<char>, pos: int) -> Option<(Symbol, int)> {
    let c = chars[pos];
    let followed = pos + 1 < chars.len() && chars[pos + 1] == '=';
    if c == '(' {
        Some((Symbol::LeftParen, 1))
    } else if c == ')' {
        Some((Symbol::RightParen, 1))
    } else if c == ',' {
        Some((Symbol::Comma, 1))
    } else if c == ';' {
        Some((Symbol::Semicolon, 1))
    } else if c == '.' {
        Some((Symbol::Dot, 1))
    } else if c == '*' {
        Some((Symbol::Star, 1))
    } else if c == '=' {
        Some((Symbol::Equal, 1))
    } else if c == '+' {
        Some((Symbol::Plus, 1))
    } else if c == '-' {
        Some((Symbol::Minus, 1))
    } else if c == '<' {
        if followed {
            Some((Symbol::LessEqual, 2))
        } else {
            Some((Symbol::Less, 1))
        }
    } else if c == '>' {
        if followed {
            Some((Symbol::GreaterEqual, 2))
        } else {
            Some((Symbol::Greater, 1))
        }
    } else {
        None
    }
}

/// The token that begins at `pos`, where a character that is no space stands, and the
/// place behind it.
///
/// A word is a letter or `_` followed by letters, digits and `_`; it is a keyword or
/// an identifier. A number is a run of digits whose value fits 32 bits. A text stands
/// between two single quotes and holds any characters but a quote.
pub open spec fn next_token(chars: Seq<char>, pos: int) -> Result<(TokenKindView, int), ParseError> {
    let c = chars[pos];
    if is_word_start(c) {
        let end = word_end(chars, pos + 1);
        let word = chars.subrange(pos, end);
        Ok(
            (
                match keyword_of(word) {
                    Some(k) => TokenKindView::Keyword(k),
                    None => TokenKindView::Identifier(word),
                },
                end,
            ),
        )
    } else if is_digit(c) {
        let end = digits_end(chars, pos + 1);
        let value = number_value(chars, pos, end);
        if value <= u32::MAX {
            Ok((TokenKindView::Number(value as u32), end))
        } else {
            Err(ParseError { position: pos as usize, expected: Expected::Number })
        }
    } else if c == '\'' {
        match quote_end(chars, pos + 1) {
            Some(q) => Ok((TokenKindView::Text(chars.subrange(pos + 1, q)), q + 1)),
            None => Err(ParseError { position: pos as usize, expected: Expected::StringEnd }),
        }
    } else {
        match symbol_at(chars, pos) {
            Some((s, n)) => Ok((TokenKindView::Symbol(s), pos + n)),
            None => Err(ParseError { position: pos as usize, expected: Expected::Token }),
        }
    }
}

/// The tokens of a text from `pos` on, behind those found so far, with `End` as the
/// last one; or the first place at which no token begins.
pub open spec fn lex_from(chars: Seq<char>, pos: int, found: Seq<TokenView>) -> Result<
    Seq<TokenView>,
    ParseError,
>
    decreases chars.len() - pos,
{
    let start = skip_space(chars, pos);
    if 0 <= pos <= start < chars.len() {
        match next_token(chars, start) {
            Err(e) => Err(e),
            Ok((kind, next)) => if start < next <= chars.len() {
                lex_from(chars, next, found.push(TokenView { kind: kind, start: start as usize }))
            } else {
                Err(ParseError { position: start as usize, expected: Expected::Token })
            },
        }
    } else {
        Ok(found.push(TokenView { kind: TokenKindView::End, start: chars.len() as usize }))
    }
}

/// The tokens of a text.
pub open spec fn tokens_of(chars: Seq<char>) -> Result<Seq<TokenView>, ParseError> {
    lex_from(chars, 0, Seq::empty())
}

/// The lower case form of a letter; any other character itself.
pub fn to_lower(c: char) -> (l: char)
    ensures
        l == lower(c),
{
    if 'A' <= c && c <= 'Z' {
        ((c as u8) + 32) as char
    } else {
        c
    }
}

/// Whether the characters from `from` up to `to` are the given lower case word, but
/// for the case of the letters.
pub fn word_is(chars: &Vec<char>, from: usize, to: usize, lowered: &str) -> (r: bool)
    requires
        from <= to <= chars.len(),
    ensures
        r == is_word(chars@.subrange(from as int, to as int), lowered@),
{
    let ghost word = chars@.subrange(from as int, to as int);
    let mut i: usize = from;
    for c in it: lowered.chars()
        invariant
            it.seq() == lowered@,
            from <= to <= chars.len(),
            word == chars@.subrange(from as int, to as int),
            i == from + it.index(),
            i <= to,
            forall|j: int| 0 <= j < it.index() ==> lower(#[trigger] word[j]) == lowered@[j],
    {
        if i >= to {
            return false;
        }
        if to_lower(chars[i]) != c {
            assert(lower(word[i - from]) != lowered@[i - from]);
            return false;
        }
        i += 1;
    }
    i == to
}

/// The keyword that the characters from `from` up to `to` are, if they are one.
pub fn keyword_at(chars: &Vec<char>, from: usize, to: usize) -> (k: Option<Keyword>)
    requires
        from <= to <= chars.len(),
    ensures
        k == keyword_of(chars@.subrange(from as int, to as int)),
{
    if word_is(chars, from, to, "select") {
        Some(Keyword::Select)
    } else if word_is(chars, from, to, "from") {
        Some(Keyword::From)
    } else if word_is(chars, from, to, "where") {
        Some(Keyword::Where)
    } else if word_is(chars, from, to, "order") {
        Some(Keyword::Order)
    } else if word_is(chars, from, to, "by") {
        Some(Keyword::By)
    } else if word_is(chars, from, to, "limit") {
        Some(Keyword::Limit)
    } else if word_is(chars, from, to, "insert") {
        Some(Keyword::Insert)
    } else if word_is(chars, from, to, "into") {
        Some(Keyword::Into)
    } else if word_is(chars, from, to, "values") {
        Some(Keyword::Values)
    } else if word_is(chars, from, to, "create") {
        Some(Keyword::Create)
    } else if word_is(chars, from, to, "table") {
        Some(Keyword::Table)
    } else if word_is(chars, from, to, "update") {
        Some(Keyword::Update)
    } else if word_is(chars, from, to, "set") {
        Some(Keyword::SetTo)
    } else if word_is(chars, from, to, "inner") {
        Some(Keyword::Inner)
    } else if word_is(chars, from, to, "left") {
        Some(Keyword::Left)
    } else if word_is(chars, from, to, "right") {
        Some(Keyword::Right)
    } else if word_is(chars, from, to, "join") {
        Some(Keyword::Join)
    } else if word_is(chars, from, to, "on") {
        Some(Keyword::On)
    } else if word_is(chars, from, to, "and") {
        Some(Keyword::And)
    } else if word_is(chars, from, to, "or") {
        Some(Keyword::Or)
    } else if word_is(chars, from, to, "in") {
        Some(Keyword::In)
    } else if word_is(chars, from, to, "asc") {
        Some(Keyword::Asc)
    } else if word_is(chars, from, to, "desc") {
        Some(Keyword::Desc)
    } else if word_is(chars, from, to, "true") {
        Some(Keyword::True)
    } else if word_is(chars, from, to, "false") {
        Some(Keyword::False)
    } else if word_is(chars, from, to, "count") {
        Some(Keyword::Count)
    } else {
        None
    }
}

/// Whether a character separates tokens.
pub fn space(c: char) -> (r: bool)
    ensures
        r == is_space(c),
{
    c == ' ' || c == '\t' || c == '\n' || c == '\r'
}

/// Whether a character is a decimal digit.
pub fn digit(c: char) -> (r: bool)
    ensures
        r == is_digit(c),
{
    '0' <= c && c <= '9'
}

/// Whether a word may go on with the character.
pub fn word_char(c: char) -> (r: bool)
    ensures
        r == is_word_char(c),
        r == (is_word_start(c) || is_digit(c)),
{
    ('a' <= c && c <= 'z') || ('A' <= c && c <= 'Z') || c == '_' || ('0' <= c && c <= '9')
}

/// The first place from `pos` on that holds no space.
pub fn scan_space(chars: &Vec<char>, pos: usize) -> (end: usize)
    requires
        pos <= chars.len(),
    ensures
        end == skip_space(chars@, pos as int),
        pos <= end <= chars.len(),
{
    let mut i: usize = pos;
    while i < chars.len() && space(chars[i])
        invariant
            pos <= i <= chars.len(),
            skip_space(chars@, pos as int) == skip_space(chars@, i as int),
        decreases chars.len() - i,
    {
        i += 1;
    }
    i
}

/// The first place from `pos` on that holds no character of a word.
pub fn scan_word(chars: &Vec<char>, pos: usize) -> (end: usize)
    requires
        pos <= chars.len(),
    ensures
        end == word_end(chars@, pos as int),
        pos <= end <= chars.len(),
{
    let mut i: usize = pos;
    while i < chars.len() && word_char(chars[i])
        invariant
            pos <= i <= chars.len(),
            word_end(chars@, pos as int) == word_end(chars@, i as int),
        decreases chars.len() - i,
    {
        i += 1;
    }
    i
}

/// The first place from `pos` on that holds a quote, if there is one.
pub fn scan_quote(chars: &Vec<char>, pos: usize) -> (end: Option<usize>)
    requires
        pos <= chars.len(),
    ensures
        match end {
            Some(q) => quote_end(chars@, pos as int) == Some(q as int) && pos <= q < chars.len(),
            None => quote_end(chars@, pos as int) == None::<int>,
        },
{
    let mut i: usize = pos;
    while i < chars.len()
        invariant
            pos <= i <= chars.len(),
            quote_end(chars@, pos as int) == quote_end(chars@, i as int),
        decreases chars.len() - i,
    {
        if chars[i] == '\'' {
            return Some(i);
        }
        i += 1;
    }
    None
}

/// The end of the run of digits that begins at `pos`, and the number that it denotes
/// where that fits 32 bits.
pub fn scan_number(chars: &Vec<char>, pos: usize) -> (res: (usize, Option<u32>))
    requires
        pos < chars.len(),
        is_digit(chars@[pos as int]),
    ensures
        res.0 == digits_end(chars@, pos + 1),
        pos < res.0 <= chars.len(),
        match res.1 {
            Some(v) => number_value(chars@, pos as int, res.0 as int) == v,
            None => number_value(chars@, pos as int, res.0 as int) > u32::MAX,
        },
{
    let mut value: u64 = 0;
    let mut fits = true;
    let mut i: usize = pos;
    assert(digits_end(chars@, pos as int) == digits_end(chars@, pos + 1));
    while i < chars.len() && digit(chars[i])
        invariant
            pos <= i <= chars.len(),
            i == pos ==> is_digit(chars@[pos as int]),
            digits_end(chars@, pos as int) == digits_end(chars@, i as int),
            fits ==> value == number_value(chars@, pos as int, i as int) && value <= u32::MAX,
            !fits ==> number_value(chars@, pos as int, i as int) > u32::MAX,
        decreases chars.len() - i,
    {
        let d = (chars[i] as u32 - '0' as u32) as u64;
        if fits {
            value = value * 10 + d;
            if value > u32::MAX as u64 {
                fits = false;
            }
        }
        i += 1;
    }
    if fits {
        (i, Some(value as u32))
    } else {
        (i, None)
    }
}

/// The sign at a place, with the number of characters that it takes.
pub fn scan_symbol(chars: &Vec<char>, pos: usize) -> (res: Option<(Symbol, usize)>)
    requires
        pos < chars.len(),
    ensures
        match res {
            Some((s, n)) => symbol_at(chars@, pos as int) == Some((s, n as int)) && 1 <= n
                && pos + n <= chars.len(),
            None => symbol_at(chars@, pos as int) == None::<(Symbol, int)>,
        },
{
    let c = chars[pos];
    let followed = pos + 1 < chars.len() && chars[pos + 1] == '=';
    if c == '(' {
        Some((Symbol::LeftParen, 1))
    } else if c == ')' {
        Some((Symbol::RightParen, 1))
    } else if c == ',' {
        Some((Symbol::Comma, 1))
    } else if c == ';' {
        Some((Symbol::Semicolon, 1))
    } else if c == '.' {
        Some((Symbol::Dot, 1))
    } else if c == '*' {
        Some((Symbol::Star, 1))
    } else if c == '=' {
        Some((Symbol::Equal, 1))
    } else if c == '+' {
        Some((Symbol::Plus, 1))
    } else if c == '-' {
        Some((Symbol::Minus, 1))
    } else if c == '<' {
        if followed {
            Some((Symbol::LessEqual, 2))
        } else {
            Some((Symbol::Less, 1))
        }
    } else if c == '>' {
        if followed {
            Some((Symbol::GreaterEqual, 2))
        } else {
            Some((Symbol::Greater, 1))
        }
    } else {
        None
    }
}

/// What the result of scanning one token stands for.
pub open spec fn scanned_view(res: Result<(TokenKind, usize), ParseError>) -> Result<
    (TokenKindView, int),
    ParseError,
> {
    match res {
        Ok((kind, next)) => Ok((kind@, next as int)),
        Err(e) => Err(e),
    }
}

/// The token that begins at `pos`, and the place behind it.
pub fn scan_token(chars: &Vec<char>, pos: usize) -> (res: Result<(TokenKind, usize), ParseError>)
    requires
        pos < chars.len(),
    ensures
        scanned_view(res) == next_token(chars@, pos as int),
        res matches Ok((_, next)) ==> pos < next <= chars.len(),
{
    let c = chars[pos];
    if ('a' <= c && c <= 'z') || ('A' <= c && c <= 'Z') || c == '_' {
        let end = scan_word(chars, pos + 1);
        match keyword_at(chars, pos, end) {
            Some(k) => Ok((TokenKind::Keyword(k), end)),
            None => Ok((TokenKind::Identifier(string_of(chars, pos, end)), end)),
        }
    } else if digit(c) {
        let (end, value) = scan_number(chars, pos);
        match value {
            Some(v) => Ok((TokenKind::Number(v), end)),
            None => Err(ParseError { position: pos, expected: Expected::Number }),
        }
    } else if c == '\'' {
        match scan_quote(chars, pos + 1) {
            Some(q) => Ok((TokenKind::Text(string_of(chars, pos + 1, q)), q + 1)),
            None => Err(ParseError { position: pos, expected: Expected::StringEnd }),
        }
    } else {
        match scan_symbol(chars, pos) {
            Some((s, n)) => Ok((TokenKind::Symbol(s), pos + n)),
            None => Err(ParseError { position: pos, expected: Expected::Token }),
        }
    }
}

/// Splits a text into its tokens. The last token is `End`.
pub fn lex(source: &str) -> (res: Result<Vec<Token>, ParseError>)
    ensures
        match res {
            Ok(tokens) => tokens_of(source@) == Ok::<Seq<TokenView>, ParseError>(
                tokens_view(tokens@),
            ),
            Err(e) => tokens_of(source@) == Err::<Seq<TokenView>, ParseError>(e),
        },
{
    let chars = chars_of(source);
    let mut tokens: Vec<Token> = Vec::new();
    let mut pos: usize = 0;
    assert(tokens_view(tokens@) =~= Seq::<TokenView>::empty());
    loop
        invariant
            pos <= chars.len(),
            chars@ == source@,
            tokens_of(chars@) == lex_from(chars@, pos as int, tokens_view(tokens@)),
        decreases chars.len() - pos,
    {
        let start = scan_space(&chars, pos);
        let ghost found = tokens_view(tokens@);
        if start >= chars.len() {
            tokens.push(Token { kind: TokenKind::End, start: chars.len() });
            assert(tokens_view(tokens@) =~= found.push(
                TokenView { kind: TokenKindView::End, start: chars.len() as usize },
            ));
            return Ok(tokens);
        }
        match scan_token(&chars, start) {
            Err(e) => {
                return Err(e);
            },
            Ok((kind, next)) => {
                let token = Token { kind: kind, start: start };
                tokens.push(token);
                assert(tokens_view(tokens@) =~= found.push(token@));
                pos = next;
            },
        }
    }
}

} // verus!
