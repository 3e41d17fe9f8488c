use sql_rs::data::Database;
use sql_rs::parse::parse_queries;

fn run(database: &mut Database, text: &str) -> Vec<String> {
    let queries = parse_queries(text).expect("the text parses");
    let mut outputs = Vec::new();
    for query in queries.0 {
        match database.execute(query) {
            Ok(success) => outputs.push(success.to_string()),
            Err(error) => outputs.push(format!("error: {}", error.to_string())),
        }
    }
    outputs
}

#[test]
fn create_insert_select() {
    let mut db = Database::new();
    let out = run(
        &mut db,
        "create table t (a number, b text);\n\
         insert into t (a,b) values (1,'x');\n\
         insert into t (b,a) values ('y',2);\n\
         select * from t;",
    );
    assert_eq!(out, vec!["CREATED TABLE", "INSERT 1", "INSERT 1", "a,b\n1,x\n2,y"]);
}

#[test]
fn filter_limit_order() {
    let mut db = Database::new();
    let out = run(
        &mut db,
        "create table n (v number);\n\
         insert into n (v) values (3); insert into n (v) values (1); insert into n (v) values (2);\n\
         select v from n where v >= 2 order by v desc limit 1;",
    );
    assert_eq!(out.last().unwrap(), "v\n3");
}

#[test]
fn left_join_pads_with_null() {
    let mut db = Database::new();
    let out = run(
        &mut db,
        "create table u (id number);\n\
         create table o (uid number);\n\
         insert into u (id) values (1); insert into u (id) values (2);\n\
         insert into o (uid) values (1);\n\
         select u.id, o.uid from u left join o on u.id = o.uid;",
    );
    assert_eq!(out.last().unwrap(), "id,uid\n1,1\n2,null");
}

fn a_and_b() -> Database {
    let mut db = Database::new();
    run(
        &mut db,
        "create table a (x number); create table b (y number);\n\
         insert into a (x) values (1); insert into a (x) values (2); insert into a (x) values (3);\n\
         insert into b (y) values (2); insert into b (y) values (3);",
    );
    db
}

#[test]
fn subquery_membership() {
    let mut db = a_and_b();
    let out = run(&mut db, "select x from a where x in (select y from b) order by x asc;");
    assert_eq!(out, vec!["x\n2\n3"]);
}

#[test]
fn count_star() {
    let mut db = a_and_b();
    let out = run(&mut db, "select count(*) from a;");
    assert_eq!(out, vec!["count\n3"]);
}

#[test]
fn update_then_select() {
    let mut db = a_and_b();
    let out = run(&mut db, "update a set x = 9 where x = 2;\nselect x from a order by x asc;");
    assert_eq!(out, vec!["UPDATE 1", "x\n1\n3\n9"]);
}

#[test]
fn empty_result_shows_the_header() {
    let mut db = a_and_b();
    let out = run(&mut db, "select x from a where x > 100;");
    assert_eq!(out, vec!["x\n"]);
}

#[test]
fn keywords_in_any_case() {
    let mut db = a_and_b();
    let out = run(&mut db, "SELECT x FROM a WHERE x >= 2 ORDER BY x DESC LIMIT 1;");
    assert_eq!(out, vec!["x\n3"]);
}

#[test]
fn inner_join_with_true_is_the_product() {
    let mut db = a_and_b();
    let out = run(&mut db, "select a.x, b.y from a inner join b on true;");
    assert_eq!(out, vec!["x,y\n1,2\n1,3\n2,2\n2,3\n3,2\n3,3"]);
}

#[test]
fn right_join_pads_on_the_left() {
    let mut db = a_and_b();
    let out = run(&mut db, "select a.x, b.y from a right join b on a.x + 1 = b.y;");
    assert_eq!(out, vec!["x,y\n1,2\n2,3"]);
    let out = run(&mut db, "select b.y, a.x from b right join a on a.x + 1 = b.y;");
    assert_eq!(out, vec!["y,x\n2,1\n3,2\nnull,3"]);
}

#[test]
fn left_join_keeps_every_left_row() {
    let mut db = a_and_b();
    let out = run(&mut db, "select a.x, b.y from a left join b on a.x = b.y;");
    assert_eq!(out, vec!["x,y\n1,null\n2,2\n3,3"]);
}

#[test]
fn count_agrees_with_rows() {
    let mut db = a_and_b();
    let rows = run(&mut db, "select * from a where x >= 2;");
    assert_eq!(rows, vec!["x\n2\n3"]);
    let count = run(&mut db, "select count(*) from a where x >= 2;");
    assert_eq!(count, vec!["count\n2"]);
}

#[test]
fn alias_scopes_columns() {
    let mut db = a_and_b();
    let out = run(&mut db, "select l.x, r.x from a l inner join a r on l.x + 1 = r.x;");
    assert_eq!(out, vec!["x,x\n1,2\n2,3"]);
    let out = run(&mut db, "select l.* from a l inner join b r on l.x = r.y;");
    assert_eq!(out, vec!["x\n2\n3"]);
}

#[test]
fn ambiguous_and_unknown_columns() {
    let mut db = a_and_b();
    let out = run(&mut db, "select x from a l inner join a r on true;");
    assert_eq!(out, vec!["error: More than one column has that name"]);
    let out = run(&mut db, "select z from a;");
    assert_eq!(out, vec!["error: No column with that name exists"]);
    let out = run(&mut db, "select x from missing;");
    assert_eq!(out, vec!["error: No table with that name exists"]);
}

#[test]
fn arithmetic_and_precedence() {
    let mut db = a_and_b();
    let out = run(&mut db, "select x + 1 from a where x + 1 > 2 and x < 3 or x = 1;");
    assert_eq!(out, vec!["x\n2\n3"]);
    let out = run(&mut db, "select 7 - 2 - 1, 'k', true from a limit 1;");
    assert_eq!(out, vec!["?column?,?column?,?column?\n4,k,true"]);
}

#[test]
fn sort_ascending_and_descending() {
    let mut db = Database::new();
    run(
        &mut db,
        "create table w (k number, s text);\n\
         insert into w (k, s) values (2, 'b'); insert into w (k, s) values (1, 'c');\n\
         insert into w (k, s) values (3, 'a'); insert into w (k, s) values (1, 'd');",
    );
    let out = run(&mut db, "select k, s from w order by k;");
    assert_eq!(out, vec!["k,s\n1,c\n1,d\n2,b\n3,a"]);
    let out = run(&mut db, "select k, s from w order by s desc;");
    assert_eq!(out, vec!["k,s\n1,d\n1,c\n2,b\n3,a"]);
}

#[test]
fn limit_twice_as_once() {
    let mut db = a_and_b();
    let out = run(&mut db, "select x from a limit 2;");
    assert_eq!(out, vec!["x\n1\n2"]);
    let out = run(&mut db, "select x from a limit 0;");
    assert_eq!(out, vec!["x\n"]);
    let out = run(&mut db, "select x from a limit 10;");
    assert_eq!(out, vec!["x\n1\n2\n3"]);
}
