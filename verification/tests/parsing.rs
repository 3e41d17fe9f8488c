use sql_rs::data::Datatype;
use sql_rs::parse::ast::Column;
use sql_rs::parse::ast::Expression;
use sql_rs::parse::ast::ExpressionOp;
use sql_rs::parse::ast::JoinKind;
use sql_rs::parse::ast::Literal;
use sql_rs::parse::ast::OrderByDirection;
use sql_rs::parse::ast::Query;
use sql_rs::parse::lexer::lex;
use sql_rs::parse::lexer::Expected;
use sql_rs::parse::lexer::Keyword;
use sql_rs::parse::lexer::ParseError;
use sql_rs::parse::lexer::Symbol;
use sql_rs::parse::lexer::TokenKind;
use sql_rs::parse::parse_queries;

fn select_of(text: &str) -> sql_rs::parse::ast::SelectQuery {
    let mut queries = parse_queries(text).expect("the text parses").0;
    assert_eq!(queries.len(), 1);
    match queries.remove(0) {
        Query::SelectQuery(q) => q,
        _ => panic!("not a select query"),
    }
}

fn failure(text: &str) -> ParseError {
    match parse_queries(text) {
        Ok(_) => panic!("the text should not parse"),
        Err(e) => e,
    }
}

#[test]
fn lexer_splits_words_numbers_texts_and_signs() {
    let tokens = lex("select a1, 'x y' <= 42;").unwrap();
    let kinds: Vec<String> = tokens.iter().map(|t| format!("{:?}", t.kind)).collect();
    assert_eq!(
        kinds,
        vec![
            "Keyword(Select)",
            "Identifier(\"a1\")",
            "Symbol(Comma)",
            "Text(\"x y\")",
            "Symbol(LessEqual)",
            "Number(42)",
            "Symbol(Semicolon)",
            "End",
        ]
    );
    let starts: Vec<usize> = tokens.iter().map(|t| t.start).collect();
    assert_eq!(starts, vec![0, 7, 9, 11, 17, 20, 22, 23]);
}

#[test]
fn lexer_reads_the_largest_number() {
    let tokens = lex("4294967295").unwrap();
    assert!(matches!(tokens[0].kind, TokenKind::Number(4294967295)));
    match lex("4294967296") {
        Err(e) => assert_eq!(e, ParseError { position: 0, expected: Expected::Number }),
        Ok(_) => panic!("the number should not fit"),
    }
}

#[test]
fn select_with_every_clause() {
    let q = select_of("select u.email, * from users u where age >= 25 order by age desc limit 10;");
    assert_eq!(q.select_list.len(), 2);
    match &q.select_list[0] {
        Expression::ColumnIdentifier(i) => {
            assert_eq!(i.alias.as_ref().unwrap().0, "u");
            assert!(matches!(&i.name, Column::Ident(n) if n.0 == "email"));
            assert_eq!(i.as_string(), "u.email");
        }
        _ => panic!("not a column"),
    }
    match &q.select_list[1] {
        Expression::ColumnIdentifier(i) => {
            assert!(i.alias.is_none());
            assert!(matches!(i.name, Column::Star));
            assert_eq!(i.as_string(), "*");
        }
        _ => panic!("not a column"),
    }
    assert_eq!(q.table.root_table.name.0, "users");
    assert_eq!(q.table.root_table.alias.as_ref().unwrap().0, "u");
    assert_eq!(q.table.root_table.as_str(), "u");
    assert!(q.table.joins.is_empty());
    match q.filter.as_ref().unwrap() {
        Expression::BinaryOp(b) => {
            assert_eq!(b.op, ExpressionOp::GreaterEqual);
            assert!(matches!(&*b.right, Expression::Literal(Literal::Number(25))));
        }
        _ => panic!("not an operator"),
    }
    let sort = q.sort.as_ref().unwrap();
    assert_eq!(sort.direction, OrderByDirection::Desc);
    assert!(matches!(q.limit, Some(Expression::Literal(Literal::Number(10)))));
}

#[test]
fn direction_defaults_to_ascending() {
    let q = select_of("select a from t order by a;");
    assert_eq!(q.sort.unwrap().direction, OrderByDirection::Asc);
    assert_eq!(OrderByDirection::default(), OrderByDirection::Asc);
}

#[test]
fn joins_of_three_kinds() {
    let q = select_of(
        "select * from a inner join b on true left join c x on false right join d on true;",
    );
    let kinds: Vec<JoinKind> = q.table.joins.iter().map(|j| j.kind).collect();
    assert_eq!(kinds, vec![JoinKind::Inner, JoinKind::Left, JoinKind::Right]);
    assert_eq!(q.table.joins[1].table.name.0, "c");
    assert_eq!(q.table.joins[1].table.as_str(), "x");
    assert_eq!(q.table.joins[2].table.as_str(), "d");
}

fn shape(expr: &Expression) -> String {
    match expr {
        Expression::CountStar => "count".to_string(),
        Expression::Literal(Literal::Number(n)) => n.to_string(),
        Expression::Literal(Literal::String(s)) => format!("'{}'", s),
        Expression::Literal(Literal::Boolean(b)) => b.to_string(),
        Expression::ColumnIdentifier(i) => i.as_string(),
        Expression::BinaryOp(b) => format!("({} {:?} {})", shape(&b.left), b.op, shape(&b.right)),
        Expression::Subquery(_) => "subquery".to_string(),
    }
}

#[test]
fn operators_bind_by_precedence_and_from_the_left() {
    let q = select_of("select 1 + 2 = 3 and a - 1 - 2 < b or c from t;");
    assert_eq!(
        shape(&q.select_list[0]),
        "((((1 Plus 2) Equal 3) And (((a Minus 1) Minus 2) Less b)) Or c)"
    );
    let q = select_of("select 1 - (2 - 3), (a), count(*) from t;");
    assert_eq!(shape(&q.select_list[0]), "(1 Minus (2 Minus 3))");
    assert_eq!(shape(&q.select_list[1]), "a");
    assert_eq!(shape(&q.select_list[2]), "count");
}

#[test]
fn in_takes_a_subquery() {
    let q = select_of("select id from users where id in (select user_id from orders);");
    match q.filter.unwrap() {
        Expression::BinaryOp(b) => {
            assert_eq!(b.op, ExpressionOp::In);
            match *b.right {
                Expression::Subquery(sub) => assert_eq!(sub.table.root_table.name.0, "orders"),
                _ => panic!("not a subquery"),
            }
        }
        _ => panic!("not an operator"),
    }
    assert_eq!(
        failure("select x in 3 from t;"),
        ParseError { position: 12, expected: Expected::Subquery }
    );
}

#[test]
fn insert_create_and_update() {
    let queries = parse_queries(
        "create table users (id number, email TEXT, ok Boolean);\
         insert into users (id, email) values (1, 'a@x');\
         update users set id = 2, ok = true where id = 1;",
    )
    .unwrap()
    .0;
    assert_eq!(queries.len(), 3);
    match &queries[0] {
        Query::CreateTableQuery(q) => {
            assert_eq!(q.table_name.0, "users");
            let columns: Vec<(&str, Datatype)> =
                q.columns.iter().map(|c| (c.name.0.as_str(), c.datatype)).collect();
            assert_eq!(
                columns,
                vec![("id", Datatype::Number), ("email", Datatype::Text), ("ok", Datatype::Boolean)]
            );
        }
        _ => panic!("not a create table query"),
    }
    match &queries[1] {
        Query::InsertQuery(q) => {
            assert_eq!(q.table.0, "users");
            let names: Vec<&str> = q.columns.iter().map(|c| c.0.as_str()).collect();
            assert_eq!(names, vec!["id", "email"]);
            assert!(matches!(q.values[0], Literal::Number(1)));
            assert!(matches!(&q.values[1], Literal::String(s) if s == "a@x"));
        }
        _ => panic!("not an insert query"),
    }
    match &queries[2] {
        Query::UpdateQuery(q) => {
            assert_eq!(q.table.0, "users");
            assert_eq!(q.assignments.len(), 2);
            assert_eq!(q.assignments[1].column.0, "ok");
            assert!(matches!(q.assignments[1].value, Literal::Boolean(true)));
            assert_eq!(shape(&q.filter), "(id Equal 1)");
        }
        _ => panic!("not an update query"),
    }
}

#[test]
fn parsing_twice_gives_the_same_tree() {
    let text = "select a.x + 1, b.* from a inner join b on a.x = b.y where a.x in (select y from b) order by a.x desc limit 3;";
    let first = format!("{:?}", parse_queries(text).unwrap());
    let second = format!("{:?}", parse_queries(text).unwrap());
    assert_eq!(first, second);
}

#[test]
fn errors_name_the_place_and_what_was_expected() {
    assert_eq!(failure(""), ParseError { position: 0, expected: Expected::Query });
    assert_eq!(failure("selec * from t;"), ParseError { position: 0, expected: Expected::Query });
    assert_eq!(
        failure("select from t;"),
        ParseError { position: 7, expected: Expected::Expression }
    );
    assert_eq!(
        failure("select * from t"),
        ParseError { position: 15, expected: Expected::Symbol(Symbol::Semicolon) }
    );
    assert_eq!(
        failure("select * t;"),
        ParseError { position: 9, expected: Expected::Keyword(Keyword::From) }
    );
    assert_eq!(failure("select # from t;"), ParseError { position: 7, expected: Expected::Token });
    assert_eq!(
        failure("select 'abc from t;"),
        ParseError { position: 7, expected: Expected::StringEnd }
    );
    assert_eq!(
        failure("select 99999999999 from t;"),
        ParseError { position: 7, expected: Expected::Number }
    );
    assert_eq!(
        failure("select * from a left b on true;"),
        ParseError { position: 21, expected: Expected::Keyword(Keyword::Join) }
    );
    assert_eq!(
        failure("select a from t order a;"),
        ParseError { position: 22, expected: Expected::Keyword(Keyword::By) }
    );
    assert_eq!(
        failure("create table t (a number, b);"),
        ParseError { position: 27, expected: Expected::Datatype }
    );
    assert_eq!(
        failure("insert into t (a) values (b);"),
        ParseError { position: 26, expected: Expected::Literal }
    );
    assert_eq!(
        failure("insert into t values (1);"),
        ParseError { position: 14, expected: Expected::Symbol(Symbol::LeftParen) }
    );
    assert_eq!(
        failure("update t set a = 1;"),
        ParseError { position: 18, expected: Expected::Keyword(Keyword::Where) }
    );
    assert_eq!(
        failure("select t. from t;"),
        ParseError { position: 10, expected: Expected::Identifier }
    );
    assert_eq!(
        failure("select * from t; select"),
        ParseError { position: 23, expected: Expected::Expression }
    );
    assert_eq!(
        failure("select * t;").to_string(),
        "The text is not well formed at character 9: expected from"
    );
    assert_eq!(
        failure("select * from t").to_string(),
        "The text is not well formed at character 15: expected ;"
    );
    assert_eq!(
        failure("select").to_string(),
        "The text is not well formed at character 6: expected an expression"
    );
}
