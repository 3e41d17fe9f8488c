use sql_rs::data::Database;
use sql_rs::execute::create_table;
use sql_rs::execute::evaluate::EvaluationError;
use sql_rs::execute::evaluate::ValueKind;
use sql_rs::execute::insert;
use sql_rs::execute::select;
use sql_rs::execute::update;
use sql_rs::execute::Error;
use sql_rs::parse::ast::ExpressionOp;
use sql_rs::parse::parse_queries;

fn seeded() -> Database {
    let mut db = Database::new();
    let queries = parse_queries(
        "create table t (n number, s text, b boolean);\
         insert into t (n, s, b) values (1, 'x', true);\
         insert into t (n, s, b) values (4294967295, 'y', false);\
         create table two (p number, q number);\
         insert into two (p, q) values (1, 2);",
    )
    .unwrap();
    for query in queries.0 {
        db.execute(query).unwrap();
    }
    db
}

fn error_of(db: &mut Database, text: &str) -> Error {
    let mut queries = parse_queries(text).unwrap().0;
    assert_eq!(queries.len(), 1);
    match db.execute(queries.remove(0)) {
        Ok(success) => panic!("should fail, gave {}", success.to_string()),
        Err(e) => e,
    }
}

fn evaluation(e: EvaluationError) -> Error {
    Error::Select(select::Error::Evaluation(e))
}

#[test]
fn create_fails_on_a_name_in_use() {
    let mut db = seeded();
    let before = db.tables.len();
    let e = error_of(&mut db, "create table t (a number);");
    assert_eq!(e, Error::CreateTable(create_table::Error::TableExists));
    assert_eq!(e.to_string(), "Table with that name already exists");
    assert_eq!(db.tables.len(), before);
}

#[test]
fn insert_errors_in_their_order() {
    let mut db = seeded();
    assert_eq!(
        error_of(&mut db, "insert into missing (a, b) values (1);"),
        Error::Insert(insert::Error::ColumnCountMismatch)
    );
    assert_eq!(
        error_of(&mut db, "insert into missing (a) values (1);"),
        Error::Insert(insert::Error::UnknownTable)
    );
    assert_eq!(
        error_of(&mut db, "insert into two (p, p) values (1, 2);"),
        Error::Insert(insert::Error::ColumnSetMismatch)
    );
    assert_eq!(
        error_of(&mut db, "insert into two (p) values (1);"),
        Error::Insert(insert::Error::ColumnSetMismatch)
    );
    assert_eq!(
        error_of(&mut db, "insert into two (p, z) values (1, 2);"),
        Error::Insert(insert::Error::ColumnSetMismatch)
    );
    assert_eq!(
        error_of(&mut db, "insert into two (p, q) values (1, 'x');"),
        Error::Insert(insert::Error::IncompatibleDatatype)
    );
    assert_eq!(db.find_table("two").unwrap().rows.len(), 1);
}

#[test]
fn update_errors_leave_the_table_alone() {
    let mut db = seeded();
    let before = db.find_table("t").unwrap().to_string();
    assert_eq!(
        error_of(&mut db, "update missing set n = 1 where true;"),
        Error::Update(update::Error::UnknownTable)
    );
    assert_eq!(
        error_of(&mut db, "update t set z = 1 where true;"),
        Error::Update(update::Error::UnknownColumn)
    );
    assert_eq!(
        error_of(&mut db, "update t set n = 2, s = 3 where n = 1;"),
        Error::Update(update::Error::IncompatibleDatatype)
    );
    assert_eq!(
        error_of(&mut db, "update t set n = 2 where n;"),
        Error::Update(update::Error::Condition(select::Error::Evaluation(
            EvaluationError::NonBoolean
        )))
    );
    assert_eq!(db.find_table("t").unwrap().to_string(), before);
}

#[test]
fn update_without_a_match_places_nothing() {
    let mut db = seeded();
    let mut queries = parse_queries("update t set s = 3 where n = 77;").unwrap().0;
    let done = db.execute(queries.remove(0)).unwrap();
    assert_eq!(done.to_string(), "UPDATE 0");
}

#[test]
fn type_mismatch_names_operator_and_kinds() {
    let mut db = seeded();
    assert_eq!(
        error_of(&mut db, "select n from t where n < s;"),
        evaluation(EvaluationError::TypeMismatch {
            op: ExpressionOp::Less,
            left: ValueKind::Number,
            right: ValueKind::Text,
        })
    );
    assert_eq!(
        error_of(&mut db, "select n from t where b and n;"),
        evaluation(EvaluationError::TypeMismatch {
            op: ExpressionOp::And,
            left: ValueKind::Boolean,
            right: ValueKind::Number,
        })
    );
    assert_eq!(
        error_of(&mut db, "select s + 1 from t;"),
        evaluation(EvaluationError::TypeMismatch {
            op: ExpressionOp::Plus,
            left: ValueKind::Text,
            right: ValueKind::Number,
        })
    );
}

#[test]
fn evaluation_errors() {
    let mut db = seeded();
    assert_eq!(
        error_of(&mut db, "select n from t where n + 1;"),
        evaluation(EvaluationError::NonBoolean)
    );
    assert_eq!(
        error_of(&mut db, "select n from t where n + 1 > 0;"),
        evaluation(EvaluationError::Overflow)
    );
    assert_eq!(
        error_of(&mut db, "select n from t where 0 - n = 0;"),
        evaluation(EvaluationError::Overflow)
    );
    assert_eq!(
        error_of(&mut db, "select n from t limit 'x';"),
        evaluation(EvaluationError::NonNumber)
    );
    assert_eq!(
        error_of(&mut db, "select n from t limit n;"),
        evaluation(EvaluationError::NullReference)
    );
    assert_eq!(
        error_of(&mut db, "select n from t where n in (select p, q from two);"),
        evaluation(EvaluationError::SubqueryShape)
    );
    assert_eq!(
        error_of(&mut db, "select n from t where count(*) = 1;"),
        evaluation(EvaluationError::Unsupported)
    );
    assert_eq!(
        error_of(&mut db, "select n, count(*) from t;"),
        evaluation(EvaluationError::Unsupported)
    );
    assert_eq!(
        error_of(&mut db, "select n from t where * = 1;"),
        evaluation(EvaluationError::Unsupported)
    );
}

#[test]
fn select_errors() {
    let mut db = seeded();
    assert_eq!(error_of(&mut db, "select * from missing;"), Error::Select(select::Error::UnknownTable));
    assert_eq!(
        error_of(&mut db, "select * from t inner join missing on true;"),
        Error::Select(select::Error::UnknownTable)
    );
    assert_eq!(error_of(&mut db, "select z from t;"), Error::Select(select::Error::UnknownColumn));
    assert_eq!(error_of(&mut db, "select x.n from t;"), Error::Select(select::Error::UnknownColumn));
    assert_eq!(
        error_of(&mut db, "select n from t inner join t on true;"),
        Error::Select(select::Error::AmbiguousColumn)
    );
    assert_eq!(
        error_of(&mut db, "select n from t where n in (select z from two);"),
        Error::Select(select::Error::UnknownColumn)
    );
}

#[test]
fn the_first_failing_row_decides() {
    let mut db = Database::new();
    let queries = parse_queries(
        "create table m (n number);\
         insert into m (n) values (1); insert into m (n) values (4294967295);",
    )
    .unwrap();
    for query in queries.0 {
        db.execute(query).unwrap();
    }
    assert_eq!(
        error_of(&mut db, "select n from m where n + 1 > 0;"),
        evaluation(EvaluationError::Overflow)
    );
    let mut queries = parse_queries("select n from m where n + 1 > 0 limit 1;").unwrap().0;
    assert!(db.execute(queries.remove(0)).is_err());
}

#[test]
fn messages() {
    assert_eq!(
        Error::Insert(insert::Error::ColumnCountMismatch).to_string(),
        "The number of columns differs from the number of values"
    );
    assert_eq!(
        Error::Insert(insert::Error::ColumnSetMismatch).to_string(),
        "The columns are not those of the table"
    );
    assert_eq!(
        Error::Update(update::Error::IncompatibleDatatype).to_string(),
        "A value does not fit the type of its column"
    );
    assert_eq!(
        evaluation(EvaluationError::SubqueryShape).to_string(),
        "A subquery has to return exactly one column"
    );
    assert_eq!(evaluation(EvaluationError::Overflow).to_string(), "A number is out of range");
}

#[test]
fn errors_convert_to_the_common_error() {
    assert_eq!(Error::from(select::Error::UnknownTable), Error::Select(select::Error::UnknownTable));
    assert_eq!(
        Error::from(insert::Error::ColumnSetMismatch),
        Error::Insert(insert::Error::ColumnSetMismatch)
    );
    assert_eq!(
        Error::from(create_table::Error::TableExists),
        Error::CreateTable(create_table::Error::TableExists)
    );
    assert_eq!(
        Error::from(update::Error::UnknownColumn),
        Error::Update(update::Error::UnknownColumn)
    );
}
