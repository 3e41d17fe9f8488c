use sql_rs::data::Column;
use sql_rs::data::Database;
use sql_rs::data::Datatype;
use sql_rs::data::Row;
use sql_rs::data::Table;
use sql_rs::data::Value;
use sql_rs::data::ValueList;
use sql_rs::execute::evaluate::evaluate;
use sql_rs::execute::select::evaluate_column;
use sql_rs::execute::select::Error;
use sql_rs::parse::ast::BinaryOp;
use sql_rs::parse::ast::Column as ColumnName;
use sql_rs::parse::ast::ColumnIdentifier;
use sql_rs::parse::ast::Expression;
use sql_rs::parse::ast::ExpressionOp;
use sql_rs::parse::ast::Identifier;
use sql_rs::parse::ast::JoinKind;
use sql_rs::parse::ast::Literal;
use sql_rs::parse::ast::OrderBy;
use sql_rs::parse::ast::OrderByDirection;

fn column(name: &str, datatype: Datatype) -> Column {
    Column { name: name.to_string(), datatype }
}

fn numbers(rows: &[&[u32]], columns: &[&str]) -> Table {
    Table {
        columns: columns.iter().map(|c| column(c, Datatype::Number)).collect(),
        rows: rows.iter().map(|r| Row(r.iter().map(|n| Value::Number(*n)).collect())).collect(),
    }
}

fn reference(scope: Option<&str>, name: &str) -> ColumnIdentifier {
    ColumnIdentifier {
        alias: scope.map(|s| Identifier(s.to_string())),
        name: ColumnName::Ident(Identifier(name.to_string())),
    }
}

fn column_ref(scope: Option<&str>, name: &str) -> Expression {
    Expression::ColumnIdentifier(reference(scope, name))
}

fn number(n: u32) -> Expression {
    Expression::Literal(Literal::Number(n))
}

fn binary(left: Expression, op: ExpressionOp, right: Expression) -> Expression {
    Expression::BinaryOp(BinaryOp { op, left: Box::new(left), right: Box::new(right) })
}

fn rows_of(table: &Table) -> Vec<Vec<Value>> {
    table.rows.iter().map(|r| r.0.clone()).collect()
}

fn row(values: &[Option<u32>]) -> Vec<Value> {
    values.iter().map(|v| v.map(Value::Number).unwrap_or(Value::Null)).collect()
}

#[test]
fn resolves_by_field_and_scope() {
    let columns = vec![
        column("l.id", Datatype::Number),
        column("r.id", Datatype::Number),
        column("r.name", Datatype::Text),
        column("plain", Datatype::Text),
    ];
    assert_eq!(Table::get_column_idx(&columns, &reference(None, "name")), Ok(2));
    assert_eq!(Table::get_column_idx(&columns, &reference(Some("r"), "id")), Ok(1));
    assert_eq!(Table::get_column_idx(&columns, &reference(Some("l"), "id")), Ok(0));
    assert_eq!(Table::get_column_idx(&columns, &reference(None, "plain")), Ok(3));
    assert_eq!(
        Table::get_column_idx(&columns, &reference(None, "id")),
        Err(Error::AmbiguousColumn)
    );
    assert_eq!(
        Table::get_column_idx(&columns, &reference(Some("x"), "id")),
        Err(Error::UnknownColumn)
    );
    assert_eq!(
        Table::get_column_idx(&columns, &reference(Some("r"), "plain")),
        Err(Error::UnknownColumn)
    );
    assert_eq!(Table::get_column_idx(&columns, &reference(None, "r.id")), Err(Error::UnknownColumn));
}

#[test]
fn prefixes_column_names() {
    let mut t = numbers(&[&[1, 2]], &["a", "b"]);
    t.prefix_column_names("t.");
    let names: Vec<&str> = t.columns.iter().map(|c| c.name.as_str()).collect();
    assert_eq!(names, vec!["t.a", "t.b"]);
    assert_eq!(t.columns[0].to_string(), "a");
    assert_eq!(column("a.b.c", Datatype::Text).to_string(), "c");
    assert_eq!(column("plain", Datatype::Text).to_string(), "plain");
}

#[test]
fn filter_keeps_matching_rows_in_order() {
    let db = Database::new();
    let mut t = numbers(&[&[3], &[1], &[2], &[5]], &["v"]);
    t.filter(&binary(column_ref(None, "v"), ExpressionOp::GreaterEqual, number(2)), &db).unwrap();
    assert_eq!(rows_of(&t), vec![row(&[Some(3)]), row(&[Some(2)]), row(&[Some(5)])]);
}

#[test]
fn filter_failure_changes_nothing() {
    let db = Database::new();
    let mut t = numbers(&[&[3], &[1]], &["v"]);
    let before = t.clone();
    assert!(t.filter(&column_ref(None, "v"), &db).is_err());
    assert_eq!(t, before);
}

#[test]
fn sort_orders_by_key_and_keeps_ties_in_order() {
    let db = Database::new();
    let mut t = numbers(&[&[2, 0], &[1, 1], &[3, 2], &[1, 3]], &["k", "i"]);
    t.sort(&OrderBy { expr: column_ref(None, "k"), direction: OrderByDirection::Asc }, &db).unwrap();
    assert_eq!(
        rows_of(&t),
        vec![
            row(&[Some(1), Some(1)]),
            row(&[Some(1), Some(3)]),
            row(&[Some(2), Some(0)]),
            row(&[Some(3), Some(2)])
        ]
    );
    t.sort(&OrderBy { expr: column_ref(None, "k"), direction: OrderByDirection::Desc }, &db)
        .unwrap();
    assert_eq!(
        rows_of(&t),
        vec![
            row(&[Some(3), Some(2)]),
            row(&[Some(2), Some(0)]),
            row(&[Some(1), Some(1)]),
            row(&[Some(1), Some(3)])
        ]
    );
}

#[test]
fn limit_keeps_the_first_rows() {
    let mut t = numbers(&[&[1], &[2], &[3]], &["v"]);
    t.limit(5);
    assert_eq!(t.rows.len(), 3);
    t.limit(2);
    assert_eq!(rows_of(&t), vec![row(&[Some(1)]), row(&[Some(2)])]);
    t.limit(3);
    assert_eq!(rows_of(&t), vec![row(&[Some(1)]), row(&[Some(2)])]);
    t.limit(0);
    assert!(t.rows.is_empty());
}

fn joined(kind: JoinKind) -> Vec<Vec<Value>> {
    let db = Database::new();
    let mut left = numbers(&[&[1], &[2], &[3]], &["l.a"]);
    let right = numbers(&[&[2], &[3], &[3], &[4]], &["r.b"]);
    let condition = binary(column_ref(Some("l"), "a"), ExpressionOp::Equal, column_ref(None, "b"));
    left.join(right, &condition, kind, &db).unwrap();
    let names: Vec<&str> = left.columns.iter().map(|c| c.name.as_str()).collect();
    assert_eq!(names, vec!["l.a", "r.b"]);
    rows_of(&left)
}

#[test]
fn inner_join_emits_the_matches() {
    assert_eq!(
        joined(JoinKind::Inner),
        vec![row(&[Some(2), Some(2)]), row(&[Some(3), Some(3)]), row(&[Some(3), Some(3)])]
    );
}

#[test]
fn left_join_pads_the_right_side() {
    assert_eq!(
        joined(JoinKind::Left),
        vec![
            row(&[Some(1), None]),
            row(&[Some(2), Some(2)]),
            row(&[Some(3), Some(3)]),
            row(&[Some(3), Some(3)])
        ]
    );
}

#[test]
fn right_join_goes_by_the_right_rows_and_pads_the_left_side() {
    assert_eq!(
        joined(JoinKind::Right),
        vec![
            row(&[Some(2), Some(2)]),
            row(&[Some(3), Some(3)]),
            row(&[Some(3), Some(3)]),
            row(&[None, Some(4)])
        ]
    );
}

#[test]
fn join_with_an_empty_side() {
    let db = Database::new();
    let truth = Expression::Literal(Literal::Boolean(true));
    let mut left = numbers(&[&[1], &[2]], &["l.a"]);
    left.join(numbers(&[], &["r.b"]), &truth, JoinKind::Inner, &db).unwrap();
    assert!(left.rows.is_empty());
    let mut left = numbers(&[&[1], &[2]], &["l.a"]);
    left.join(numbers(&[], &["r.b"]), &truth, JoinKind::Left, &db).unwrap();
    assert_eq!(rows_of(&left), vec![row(&[Some(1), None]), row(&[Some(2), None])]);
    let mut left = numbers(&[&[1], &[2]], &["l.a"]);
    left.join(numbers(&[], &["r.b"]), &truth, JoinKind::Right, &db).unwrap();
    assert!(left.rows.is_empty());
}

#[test]
fn insert_columns_in_any_order() {
    let t = Table {
        columns: vec![
            column("a", Datatype::Number),
            column("b", Datatype::Text),
            column("c", Datatype::Boolean),
        ],
        rows: vec![],
    };
    assert_eq!(t.validate_insert_query_columns(&["a", "b", "c"]), Some(vec![0, 1, 2]));
    assert_eq!(t.validate_insert_query_columns(&["c", "a", "b"]), Some(vec![2, 0, 1]));
    assert_eq!(t.validate_insert_query_columns(&["a", "b"]), None);
    assert_eq!(t.validate_insert_query_columns(&["a", "b", "b"]), None);
    assert_eq!(t.validate_insert_query_columns(&["a", "b", "d"]), None);
    assert_eq!(t.new_values_vec(), vec![Value::Null, Value::Null, Value::Null]);
    assert!(t.compatible_type(0, &Value::Number(1)));
    assert!(!t.compatible_type(0, &Value::Text("x".to_string())));
    assert!(t.compatible_type(1, &Value::Null));
    assert_eq!(t.column_index("b"), Some(1));
    assert_eq!(t.column_index("z"), None);
}

#[test]
fn well_formedness_is_checked() {
    let mut t = numbers(&[&[1, 2]], &["a", "b"]);
    assert!(t.is_well_formed());
    t.rows.push(Row(vec![Value::Number(1)]));
    assert!(!t.is_well_formed());
    t.rows.pop();
    t.rows.push(Row(vec![Value::Number(1), Value::Boolean(true)]));
    assert!(!t.is_well_formed());
    let mut db = Database::new();
    assert!(db.is_well_formed());
    db.tables.push(("t".to_string(), numbers(&[&[1, 2]], &["a", "b"])));
    db.tables.push(("u".to_string(), numbers(&[], &["a"])));
    assert!(db.is_well_formed());
    assert_eq!(db.position("u"), Some(1));
    assert!(db.find_table("t").is_some());
    assert!(db.find_table("v").is_none());
    db.find_table_mut("u").unwrap().rows.push(Row(vec![Value::Number(7)]));
    assert_eq!(db.find_table("u").unwrap().rows.len(), 1);
    db.tables.push(("t".to_string(), numbers(&[], &["a"])));
    assert!(!db.is_well_formed());
}

#[test]
fn evaluates_against_a_row() {
    let columns = vec![column("t.a", Datatype::Number), column("t.s", Datatype::Text)];
    let values = Row(vec![Value::Number(4), Value::Text("x".to_string())]);
    let sum = binary(column_ref(None, "a"), ExpressionOp::Plus, number(3));
    assert_eq!(evaluate(&sum, Some((&columns, &values)), None), Ok(Value::Number(7)));
    assert_eq!(
        evaluate(&column_ref(Some("t"), "s"), Some((&columns, &values)), None),
        Ok(Value::Text("x".to_string()))
    );
    assert!(evaluate(&column_ref(None, "a"), None, None).is_err());
    assert_eq!(
        evaluate(&Expression::Literal(Literal::String("k".to_string())), None, None),
        Ok(Value::Text("k".to_string()))
    );
}

#[test]
fn projected_columns() {
    let columns = vec![
        column("l.a", Datatype::Number),
        column("r.b", Datatype::Text),
        column("r.c", Datatype::Boolean),
    ];
    let star = Expression::ColumnIdentifier(ColumnIdentifier { alias: None, name: ColumnName::Star });
    assert_eq!(evaluate_column(&star, &columns).unwrap(), columns);
    let scoped = Expression::ColumnIdentifier(ColumnIdentifier {
        alias: Some(Identifier("r".to_string())),
        name: ColumnName::Star,
    });
    assert_eq!(
        evaluate_column(&scoped, &columns).unwrap(),
        vec![column("r.b", Datatype::Text), column("r.c", Datatype::Boolean)]
    );
    assert_eq!(
        evaluate_column(&column_ref(None, "b"), &columns).unwrap(),
        vec![column("r.b", Datatype::Text)]
    );
    assert_eq!(
        evaluate_column(&number(1), &columns).unwrap(),
        vec![column("?column?", Datatype::Number)]
    );
    assert_eq!(
        evaluate_column(
            &binary(column_ref(None, "c"), ExpressionOp::Equal, number(1)),
            &columns
        )
        .unwrap(),
        vec![column("r.c", Datatype::Boolean)]
    );
    assert!(evaluate_column(&Expression::CountStar, &columns).is_err());
}

#[test]
fn lists_of_one_column() {
    let t = numbers(&[&[5], &[6]], &["v"]);
    let list = ValueList::from_table(&t);
    assert_eq!(list, ValueList(vec![Value::Number(5), Value::Number(6)]));
    assert!(list.contains(Value::Number(6)));
    assert!(!list.contains(Value::Number(7)));
    assert!(!list.contains(Value::Null));
    assert_eq!(Value::List(list).to_string(), "(5,6)");
    assert_eq!(Value::List(ValueList(vec![])).to_string(), "()");
}

#[test]
fn union_moves_rows_of_equal_columns() {
    let mut a = numbers(&[&[1], &[2]], &["v"]);
    let mut b = numbers(&[&[3]], &["v"]);
    assert_eq!(a.union(&mut b), Ok(()));
    assert_eq!(rows_of(&a), vec![row(&[Some(1)]), row(&[Some(2)]), row(&[Some(3)])]);
    assert!(b.rows.is_empty());
    let mut c = numbers(&[&[4]], &["w"]);
    assert_eq!(a.union(&mut c), Err(sql_rs::data::table::Error::ColumnMismatch));
    assert_eq!(a.rows.len(), 3);
    assert_eq!(c.rows.len(), 1);
    let mut d = numbers(&[&[4, 5]], &["v", "w"]);
    assert_eq!(a.union(&mut d), Err(sql_rs::data::table::Error::ColumnMismatch));
}

#[test]
fn right_join_mirrors_left_join() {
    let db = Database::new();
    let condition = binary(column_ref(Some("l"), "a"), ExpressionOp::Less, column_ref(Some("r"), "b"));
    let l = || numbers(&[&[1], &[2], &[9]], &["l.a"]);
    let r = || numbers(&[&[2], &[0], &[3]], &["r.b"]);
    let mut right = l();
    right.join(r(), &condition, JoinKind::Right, &db).unwrap();
    let mut left = r();
    left.join(l(), &condition, JoinKind::Left, &db).unwrap();
    assert_eq!(right.rows.len(), left.rows.len());
    for (a, b) in right.rows.iter().zip(left.rows.iter()) {
        assert_eq!(a.0[0], b.0[1]);
        assert_eq!(a.0[1], b.0[0]);
    }
    assert_eq!(
        rows_of(&right),
        vec![
            row(&[Some(1), Some(2)]),
            row(&[None, Some(0)]),
            row(&[Some(1), Some(3)]),
            row(&[Some(2), Some(3)])
        ]
    );
}

#[test]
fn catalog_creates_tables_once() {
    let mut db = Database::new();
    assert_eq!(db.create_table("t".to_string(), vec![column("a", Datatype::Number)]), Ok(()));
    assert_eq!(
        db.create_table("t".to_string(), vec![]),
        Err(sql_rs::execute::create_table::Error::TableExists)
    );
    assert_eq!(db.create_table("T".to_string(), vec![]), Ok(()));
    assert_eq!(db.tables.len(), 2);
    assert_eq!(db.find_table("t").unwrap().columns, vec![column("a", Datatype::Number)]);
    assert!(db.find_table("t").unwrap().rows.is_empty());
}
