use sql_rs::data::Datatype;
use sql_rs::data::Value;
use sql_rs::data::ValueList;
use sql_rs::execute::evaluate::EvaluationError;
use sql_rs::execute::evaluate::ValueKind;
use sql_rs::parse::ast::ExpressionOp;
use sql_rs::text::decimal_string;
use sql_rs::text::join_strings;
use sql_rs::text::str_eq;
use sql_rs::text::str_le;

fn text(s: &str) -> Value {
    Value::Text(s.to_string())
}

#[test]
fn plus_adds_numbers() {
    let sum = Value::Number(2).op(ExpressionOp::Plus, Value::Number(3));
    assert_eq!(sum, Ok(Value::Number(5)));
    let sum = Value::Number(u32::MAX - 1).op(ExpressionOp::Plus, Value::Number(1));
    assert_eq!(sum, Ok(Value::Number(u32::MAX)));
}

#[test]
fn plus_reports_overflow() {
    let sum = Value::Number(u32::MAX).op(ExpressionOp::Plus, Value::Number(1));
    assert_eq!(sum, Err(EvaluationError::Overflow));
}

#[test]
fn minus_subtracts_and_reports_overflow() {
    assert_eq!(Value::Number(5).op(ExpressionOp::Minus, Value::Number(5)), Ok(Value::Number(0)));
    assert_eq!(
        Value::Number(4).op(ExpressionOp::Minus, Value::Number(5)),
        Err(EvaluationError::Overflow)
    );
}

#[test]
fn null_is_assignable_to_every_type() {
    assert!(Value::Null.assignable_to(Datatype::Number));
    assert!(Value::Null.assignable_to(Datatype::Text));
    assert!(Value::Null.assignable_to(Datatype::Boolean));
}

#[test]
fn values_are_assignable_to_their_own_type() {
    assert!(Value::Number(1).assignable_to(Datatype::Number));
    assert!(!Value::Number(1).assignable_to(Datatype::Text));
    assert!(text("a").assignable_to(Datatype::Text));
    assert!(!text("a").assignable_to(Datatype::Boolean));
    assert!(Value::Boolean(true).assignable_to(Datatype::Boolean));
    assert!(!Value::Boolean(true).assignable_to(Datatype::Number));
    assert!(!Value::List(ValueList(vec![])).assignable_to(Datatype::Text));
}

#[test]
fn equality_compares_any_two_values() {
    assert_eq!(Value::Null.op(ExpressionOp::Equal, Value::Null), Ok(Value::Boolean(true)));
    assert_eq!(Value::Number(1).op(ExpressionOp::Equal, text("1")), Ok(Value::Boolean(false)));
    assert_eq!(text("a").op(ExpressionOp::Equal, text("a")), Ok(Value::Boolean(true)));
    assert_eq!(
        Value::Boolean(true).op(ExpressionOp::Equal, Value::Boolean(false)),
        Ok(Value::Boolean(false))
    );
}

#[test]
fn comparisons_take_numbers_or_texts() {
    assert_eq!(Value::Number(1).op(ExpressionOp::Less, Value::Number(2)), Ok(Value::Boolean(true)));
    assert_eq!(Value::Number(2).op(ExpressionOp::Less, Value::Number(2)), Ok(Value::Boolean(false)));
    assert_eq!(
        Value::Number(2).op(ExpressionOp::LessEqual, Value::Number(2)),
        Ok(Value::Boolean(true))
    );
    assert_eq!(
        Value::Number(3).op(ExpressionOp::Greater, Value::Number(2)),
        Ok(Value::Boolean(true))
    );
    assert_eq!(
        Value::Number(1).op(ExpressionOp::GreaterEqual, Value::Number(2)),
        Ok(Value::Boolean(false))
    );
    assert_eq!(text("abc").op(ExpressionOp::Less, text("abd")), Ok(Value::Boolean(true)));
    assert_eq!(text("ab").op(ExpressionOp::Less, text("abc")), Ok(Value::Boolean(true)));
    assert_eq!(text("b").op(ExpressionOp::Greater, text("abc")), Ok(Value::Boolean(true)));
    assert_eq!(text("b").op(ExpressionOp::GreaterEqual, text("b")), Ok(Value::Boolean(true)));
    assert_eq!(text("b").op(ExpressionOp::LessEqual, text("a")), Ok(Value::Boolean(false)));
    assert_eq!(
        Value::Boolean(true).op(ExpressionOp::Less, Value::Boolean(false)),
        Err(EvaluationError::TypeMismatch {
            op: ExpressionOp::Less,
            left: ValueKind::Boolean,
            right: ValueKind::Boolean,
        })
    );
    assert_eq!(
        Value::Null.op(ExpressionOp::GreaterEqual, Value::Number(1)),
        Err(EvaluationError::TypeMismatch {
            op: ExpressionOp::GreaterEqual,
            left: ValueKind::Null,
            right: ValueKind::Number,
        })
    );
}

#[test]
fn and_or_take_booleans() {
    let t = || Value::Boolean(true);
    let f = || Value::Boolean(false);
    assert_eq!(t().op(ExpressionOp::And, f()), Ok(f()));
    assert_eq!(t().op(ExpressionOp::And, t()), Ok(t()));
    assert_eq!(f().op(ExpressionOp::Or, t()), Ok(t()));
    assert_eq!(f().op(ExpressionOp::Or, f()), Ok(f()));
    assert_eq!(
        t().op(ExpressionOp::Or, Value::Null),
        Err(EvaluationError::TypeMismatch {
            op: ExpressionOp::Or,
            left: ValueKind::Boolean,
            right: ValueKind::Null,
        })
    );
}

#[test]
fn in_takes_a_list_on_the_right() {
    let list = || Value::List(ValueList(vec![Value::Number(1), text("a"), Value::Null]));
    assert_eq!(Value::Number(1).op(ExpressionOp::In, list()), Ok(Value::Boolean(true)));
    assert_eq!(Value::Null.op(ExpressionOp::In, list()), Ok(Value::Boolean(true)));
    assert_eq!(text("b").op(ExpressionOp::In, list()), Ok(Value::Boolean(false)));
    assert_eq!(
        Value::Number(1).op(ExpressionOp::In, Value::Number(1)),
        Err(EvaluationError::TypeMismatch {
            op: ExpressionOp::In,
            left: ValueKind::Number,
            right: ValueKind::Number,
        })
    );
}

#[test]
fn order_of_values() {
    let ordered = vec![
        Value::Null,
        Value::Number(0),
        Value::Number(7),
        text(""),
        text("a"),
        text("b"),
        Value::Boolean(false),
        Value::Boolean(true),
        Value::List(ValueList(vec![])),
    ];
    for (i, a) in ordered.iter().enumerate() {
        for (j, b) in ordered.iter().enumerate() {
            assert_eq!(a.le(b), i <= j, "{:?} and {:?}", a, b);
        }
    }
    assert!(Value::Null.le(&Value::Null));
}

#[test]
fn getters_and_kinds() {
    assert!(Value::Boolean(true).is_true());
    assert!(!Value::Boolean(false).is_true());
    assert_eq!(Value::Number(9).as_number(), 9);
    assert_eq!(text("abc").as_str(), "abc");
    assert_eq!(Value::Number(9).datatype(), Datatype::Number);
    assert_eq!(text("abc").datatype(), Datatype::Text);
    assert_eq!(Value::Boolean(true).datatype(), Datatype::Boolean);
    assert_eq!(Value::Null.datatype(), Datatype::Text);
    assert_eq!(Value::Null.kind(), ValueKind::Null);
    assert_eq!(Value::List(ValueList(vec![])).kind(), ValueKind::List);
    assert_eq!(text("abc").clone(), text("abc"));
    assert!(text("abc").same(&text("abc")));
    assert!(!text("abc").same(&Value::Null));
}

#[test]
fn values_as_text() {
    assert_eq!(Value::Null.to_string(), "null");
    assert_eq!(Value::Number(0).to_string(), "0");
    assert_eq!(Value::Number(4294967295).to_string(), "4294967295");
    assert_eq!(text("a b").to_string(), "a b");
    assert_eq!(Value::Boolean(true).to_string(), "true");
    assert_eq!(Value::Boolean(false).to_string(), "false");
}

#[test]
fn text_helpers() {
    assert_eq!(decimal_string(0), "0");
    assert_eq!(decimal_string(10), "10");
    assert_eq!(decimal_string(18446744073709551615), "18446744073709551615");
    assert_eq!(join_strings(&vec![], ","), "");
    assert_eq!(join_strings(&vec!["a".to_string()], ","), "a");
    assert_eq!(join_strings(&vec!["a".to_string(), "".to_string(), "c".to_string()], ", "), "a, , c");
    assert!(str_eq("héllo", "héllo"));
    assert!(!str_eq("hello", "hellp"));
    assert!(!str_eq("hello", "hell"));
    assert!(str_le("", "a"));
    assert!(str_le("a", "a"));
    assert!(!str_le("b", "a"));
    assert!(str_le("z", "é"));
    assert!(!str_le("ab", "a"));
}
