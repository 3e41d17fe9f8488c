use crate::data::datatype::Datatype;
use crate::data::value_list::ValueList;
use crate::execute::evaluate::EvaluationError;
use crate::execute::evaluate::ValueKind;
use crate::parse::ast::ExpressionOp;
use crate::text::str_le;
use crate::text::text_le;
use crate::text::text_lt;
use vstd::prelude::*;

verus! {

/// A value in a row, or the result of an expression.
#[derive(Debug)]
pub enum Value {
    Null,
    Number(u32),
    Text(String),
    Boolean(bool),
    List(ValueList),
}

/// What a `Value` stands for.
pub enum ValueView {
    Null,
    Number(u32),
    Text(Seq<char>),
    Boolean(bool),
    List(Seq<ValueView>),
}

/// The views of a sequence of values.
pub open spec fn views_of(values: Seq<Value>) -> Seq<ValueView>
    decreases values,
{
    Seq::new(
        values.len(),
        |i: int|
            if 0 <= i < values.len() {
                values[i].view()
            } else {
                ValueView::Null
            },
    )
}

impl View for Value {
    type V = ValueView;

    open spec fn view(&self) -> ValueView
        decreases self,
    {
        match self {
            Value::Null => ValueView::Null,
            Value::Number(n) => ValueView::Number(*n),
            Value::Text(s) => ValueView::Text(s@),
            Value::Boolean(b) => ValueView::Boolean(*b),
            Value::List(l) => ValueView::List(views_of(l.0@)),
        }
    }
}

/// The kind of a value.
pub open spec fn kind_of(v: ValueView) -> ValueKind {
    match v {
        ValueView::Null => ValueKind::Null,
        ValueView::Number(_) => ValueKind::Number,
        ValueView::Text(_) => ValueKind::Text,
        ValueView::Boolean(_) => ValueKind::Boolean,
        ValueView::List(_) => ValueKind::List,
    }
}

/// Place of a kind in the order of values: null, numbers, texts, booleans, lists.
pub open spec fn kind_rank(k: ValueKind) -> int {
    match k {
        ValueKind::Null => 0,
        ValueKind::Number => 1,
        ValueKind::Text => 2,
        ValueKind::Boolean => 3,
        ValueKind::List => 4,
    }
}

/// The order of values: by kind first, then numbers by size, texts as texts, and
/// `false` before `true`. Two lists count as equal in this order.
pub open spec fn value_le(a: ValueView, b: ValueView) -> bool {
    match (a, b) {
        (ValueView::Number(x), ValueView::Number(y)) => x <= y,
        (ValueView::Text(x), ValueView::Text(y)) => text_le(x, y),
        (ValueView::Boolean(x), ValueView::Boolean(y)) => !x || y,
        _ => kind_rank(kind_of(a)) <= kind_rank(kind_of(b)),
    }
}

/// Whether a value may stand in a column of the given type.
pub open spec fn assignable(v: ValueView, datatype: Datatype) -> bool {
    match v {
        ValueView::Null => true,
        ValueView::Number(_) => datatype == Datatype::Number,
        ValueView::Text(_) => datatype == Datatype::Text,
        ValueView::Boolean(_) => datatype == Datatype::Boolean,
        ValueView::List(_) => false,
    }
}

/// The result of a comparison operator on two values of one comparable kind.
pub open spec fn compare_op(l: ValueView, op: ExpressionOp, r: ValueView) -> Option<bool> {
    match (l, r) {
        (ValueView::Number(x), ValueView::Number(y)) => Some(
            match op {
                ExpressionOp::GreaterEqual => x >= y,
                ExpressionOp::LessEqual => x <= y,
                ExpressionOp::Greater => x > y,
                _ => x < y,
            },
        ),
        (ValueView::Text(x), ValueView::Text(y)) => Some(
            match op {
                ExpressionOp::GreaterEqual => text_le(y, x),
                ExpressionOp::LessEqual => text_le(x, y),
                ExpressionOp::Greater => text_lt(y, x),
                _ => text_lt(x, y),
            },
        ),
        _ => None,
    }
}

/// The result of a binary operator on two values.
pub open spec fn value_op(l: ValueView, op: ExpressionOp, r: ValueView) -> Result<
    ValueView,
    EvaluationError,
> {
    let mismatch = Err(
        EvaluationError::TypeMismatch { op: op, left: kind_of(l), right: kind_of(r) },
    );
    match op {
        ExpressionOp::Equal => Ok(ValueView::Boolean(l == r)),
        ExpressionOp::GreaterEqual
        | ExpressionOp::LessEqual
        | ExpressionOp::Greater
        | ExpressionOp::Less => match compare_op(l, op, r) {
            Some(b) => Ok(ValueView::Boolean(b)),
            None => mismatch,
        },
        ExpressionOp::And => match (l, r) {
            (ValueView::Boolean(x), ValueView::Boolean(y)) => Ok(ValueView::Boolean(x && y)),
            _ => mismatch,
        },
        ExpressionOp::Or => match (l, r) {
            (ValueView::Boolean(x), ValueView::Boolean(y)) => Ok(ValueView::Boolean(x || y)),
            _ => mismatch,
        },
        ExpressionOp::In => match r {
            ValueView::List(items) => Ok(ValueView::Boolean(items.contains(l))),
            _ => mismatch,
        },
        ExpressionOp::Plus => match (l, r) {
            (ValueView::Number(x), ValueView::Number(y)) => if x + y <= u32::MAX {
                Ok(ValueView::Number((x + y) as u32))
            } else {
                Err(EvaluationError::Overflow)
            },
            _ => mismatch,
        },
        ExpressionOp::Minus => match (l, r) {
            (ValueView::Number(x), ValueView::Number(y)) => if y <= x {
                Ok(ValueView::Number((x - y) as u32))
            } else {
                Err(EvaluationError::Overflow)
            },
            _ => mismatch,
        },
    }
}

/// The view of a result that holds a value.
pub open spec fn value_result_view(r: Result<Value, EvaluationError>) -> Result<
    ValueView,
    EvaluationError,
> {
    match r {
        Ok(v) => Ok(v@),
        Err(e) => Err(e),
    }
}

impl Clone for Value {
    #[verifier::loop_isolation(false)]
    fn clone(&self) -> (res: Value)
        ensures
            res@ == self@,
        decreases self,
    {
        match self {
            Value::Null => Value::Null,
            Value::Number(n) => Value::Number(*n),
            Value::Text(s) => Value::Text(s.clone()),
            Value::Boolean(b) => Value::Boolean(*b),
            Value::List(l) => {
                let mut out: Vec<Value> = Vec::new();
                let mut i: usize = 0;
                while i < l.0.len()
                    invariant
                        i <= l.0.len(),
                        out.len() == i,
                        forall|j: int| 0 <= j < i ==> out[j]@ == l.0[j]@,
                    decreases l.0.len() - i,
                {
                    out.push(l.0[i].clone());
                    i += 1;
                }
                assert(views_of(out@) =~= views_of(l.0@));
                Value::List(ValueList(out))
            },
        }
    }
}

impl PartialEq for Value {
    fn eq(&self, other: &Value) -> (r: bool) {
        self.same(other)
    }
}

impl vstd::std_specs::cmp::PartialEqSpecImpl for Value {
    open spec fn obeys_eq_spec() -> bool {
        true
    }

    open spec fn eq_spec(&self, other: &Value) -> bool {
        self@ == other@
    }
}

impl Value {
    /// The kind of this value.
    pub fn kind(&self) -> (k: ValueKind)
        ensures
            k == kind_of(self@),
    {
        match self {
            Value::Null => ValueKind::Null,
            Value::Number(_) => ValueKind::Number,
            Value::Text(_) => ValueKind::Text,
            Value::Boolean(_) => ValueKind::Boolean,
            Value::List(_) => ValueKind::List,
        }
    }

    /// Whether two values are equal: of one kind and with equal contents.
    #[verifier::loop_isolation(false)]
    pub fn same(&self, other: &Value) -> (r: bool)
        ensures
            r == (self@ == other@),
        decreases self,
    {
        match (self, other) {
            (Value::Null, Value::Null) => true,
            (Value::Number(x), Value::Number(y)) => *x == *y,
            (Value::Text(x), Value::Text(y)) => *x == *y,
            (Value::Boolean(x), Value::Boolean(y)) => *x == *y,
            (Value::List(x), Value::List(y)) => {
                if x.0.len() != y.0.len() {
                    assert(views_of(x.0@).len() != views_of(y.0@).len());
                    return false;
                }
                let mut i: usize = 0;
                while i < x.0.len()
                    invariant
                        i <= x.0.len(),
                        x.0.len() == y.0.len(),
                        forall|j: int| 0 <= j < i ==> x.0[j]@ == y.0[j]@,
                    decreases x.0.len() - i,
                {
                    if !x.0[i].same(&y.0[i]) {
                        assert(views_of(x.0@)[i as int] != views_of(y.0@)[i as int]);
                        return false;
                    }
                    i += 1;
                }
                assert(views_of(x.0@) =~= views_of(y.0@));
                true
            },
            _ => false,
        }
    }

    /// Whether this value comes before `other`, or ties with it, in the order of values.
    pub fn le(&self, other: &Value) -> (r: bool)
        ensures
            r == value_le(self@, other@),
    {
        match (self, other) {
            (Value::Number(x), Value::Number(y)) => *x <= *y,
            (Value::Text(x), Value::Text(y)) => str_le(x.as_str(), y.as_str()),
            (Value::Boolean(x), Value::Boolean(y)) => !*x || *y,
            _ => {
                let a = self.kind();
                let b = other.kind();
                Self::rank(a) <= Self::rank(b)
            },
        }
    }

    fn rank(k: ValueKind) -> (r: u8)
        ensures
            r == kind_rank(k),
    {
        match k {
            ValueKind::Null => 0,
            ValueKind::Number => 1,
            ValueKind::Text => 2,
            ValueKind::Boolean => 3,
            ValueKind::List => 4,
        }
    }

    fn compare(&self, op: ExpressionOp, rhs: &Value) -> (r: Option<bool>)
        requires
            op == ExpressionOp::GreaterEqual || op == ExpressionOp::LessEqual || op
                == ExpressionOp::Greater || op == ExpressionOp::Less,
        ensures
            r == compare_op(self@, op, rhs@),
    {
        match (self, rhs) {
            (Value::Number(x), Value::Number(y)) => Some(
                match op {
                    ExpressionOp::GreaterEqual => *x >= *y,
                    ExpressionOp::LessEqual => *x <= *y,
                    ExpressionOp::Greater => *x > *y,
                    _ => *x < *y,
                },
            ),
            (Value::Text(x), Value::Text(y)) => Some(
                match op {
                    ExpressionOp::GreaterEqual => str_le(y.as_str(), x.as_str()),
                    ExpressionOp::LessEqual => str_le(x.as_str(), y.as_str()),
                    ExpressionOp::Greater => !str_le(x.as_str(), y.as_str()),
                    _ => !str_le(y.as_str(), x.as_str()),
                },
            ),
            _ => None,
        }
    }

    /// Applies a binary operator to this value and `rhs`.
    ///
    /// `=` compares any two values. The four order comparisons take two numbers or two
    /// texts, `and` / `or` two booleans, `in` a list on the right, `+` / `-` two numbers
    /// whose result fits a number.
    pub fn op(self, op: ExpressionOp, rhs: Value) -> (res: Result<Value, EvaluationError>)
        ensures
            value_result_view(res) == value_op(self@, op, rhs@),
    {
        let mismatch = EvaluationError::TypeMismatch {
            op: op,
            left: self.kind(),
            right: rhs.kind(),
        };
        match op {
            ExpressionOp::Equal => Ok(Value::Boolean(self.same(&rhs))),
            ExpressionOp::GreaterEqual
            | ExpressionOp::LessEqual
            | ExpressionOp::Greater
            | ExpressionOp::Less => match self.compare(op, &rhs) {
                Some(b) => Ok(Value::Boolean(b)),
                None => Err(mismatch),
            },
            ExpressionOp::And => match (self, rhs) {
                (Value::Boolean(x), Value::Boolean(y)) => Ok(Value::Boolean(x && y)),
                _ => Err(mismatch),
            },
            ExpressionOp::Or => match (self, rhs) {
                (Value::Boolean(x), Value::Boolean(y)) => Ok(Value::Boolean(x || y)),
                _ => Err(mismatch),
            },
            ExpressionOp::In => match rhs {
                Value::List(l) => Ok(Value::Boolean(l.contains(self))),
                _ => Err(mismatch),
            },
            ExpressionOp::Plus => match (self, rhs) {
                (Value::Number(x), Value::Number(y)) => match x.checked_add(y) {
                    Some(n) => Ok(Value::Number(n)),
                    None => Err(EvaluationError::Overflow),
                },
                _ => Err(mismatch),
            },
            ExpressionOp::Minus => match (self, rhs) {
                (Value::Number(x), Value::Number(y)) => match x.checked_sub(y) {
                    Some(n) => Ok(Value::Number(n)),
                    None => Err(EvaluationError::Overflow),
                },
                _ => Err(mismatch),
            },
        }
    }

    /// Whether this value may stand in a column of the given type. Null may stand in
    /// any column, a list in none.
    pub fn assignable_to(&self, datatype: Datatype) -> (r: bool)
        ensures
            r == assignable(self@, datatype),
    {
        match self {
            Value::Null => true,
            Value::Number(_) => datatype == Datatype::Number,
            Value::Text(_) => datatype == Datatype::Text,
            Value::Boolean(_) => datatype == Datatype::Boolean,
            Value::List(_) => false,
        }
    }

    /// The boolean that this value holds.
    pub fn is_true(&self) -> (b: bool)
        requires
            self is Boolean,
        ensures
            self@ == ValueView::Boolean(b),
    {
        match self {
            Value::Boolean(b) => *b,
            _ => false,
        }
    }

    /// The number that this value holds.
    pub fn as_number(&self) -> (n: u32)
        requires
            self is Number,
        ensures
            self@ == ValueView::Number(n),
    {
        match self {
            Value::Number(n) => *n,
            _ => 0,
        }
    }

    /// The text that this value holds.
    pub fn as_str(&self) -> (s: &str)
        requires
            self is Text,
        ensures
            self@ == ValueView::Text(s@),
    {
        match self {
            Value::Text(s) => s.as_str(),
            _ => "",
        }
    }

    /// The type of the column that a literal with this value gives. Null counts as text.
    pub fn datatype(&self) -> (d: Datatype)
        requires
            !(self is List),
        ensures
            d == datatype_of(self@),
    {
        match self {
            Value::Number(_) => Datatype::Number,
            Value::Boolean(_) => Datatype::Boolean,
            _ => Datatype::Text,
        }
    }
}

/// The column type of a value that is no list. Null counts as text.
pub open spec fn datatype_of(v: ValueView) -> Datatype {
    match v {
        ValueView::Number(_) => Datatype::Number,
        ValueView::Boolean(_) => Datatype::Boolean,
        _ => Datatype::Text,
    }
}

/// The order of values is total: of any two values one comes first or they tie.
pub proof fn lemma_value_le_total(a: ValueView, b: ValueView)
    ensures
        value_le(a, b) || value_le(b, a),
{
    match (a, b) {
        (ValueView::Text(x), ValueView::Text(y)) => {
            crate::text::lemma_bytes_le_total(
                vstd::utf8::encode_utf8(x),
                vstd::utf8::encode_utf8(y),
            );
        },
        _ => {},
    }
}

} // verus!
