//! Values, rows and tables as text.

use crate::data::column::Column;
use crate::data::column::ColumnView;
use crate::data::row::Row;
use crate::data::table::Table;
use crate::data::table::TableView;
use crate::data::value::views_of;
use crate::data::value::Value;
use crate::data::value::ValueView;
use crate::text::chars_of;
use crate::text::decimal;
use crate::text::decimal_string;
use crate::text::field_of;
use crate::text::find_last_dot;
use crate::text::join_strings;
use crate::text::joined;
use crate::text::string_of;
use vstd::prelude::*;

verus! {

/// The texts of a sequence of values.
pub open spec fn value_texts(values: Seq<ValueView>) -> Seq<Seq<char>>
    decreases values,
{
    Seq::new(
        values.len(),
        |i: int|
            if 0 <= i < values.len() {
                value_text(values[i])
            } else {
                Seq::empty()
            },
    )
}

/// A value as text: null as `null`, a number in decimal digits, a text as it is, a
/// boolean as `true` or `false`, and a list as its values in parentheses, separated by
/// commas.
pub open spec fn value_text(value: ValueView) -> Seq<char>
    decreases value,
{
    match value {
        ValueView::Null => "null"@,
        ValueView::Number(n) => decimal(n as nat),
        ValueView::Text(s) => s,
        ValueView::Boolean(b) => if b {
            "true"@
        } else {
            "false"@
        },
        ValueView::List(items) => "("@ + joined(value_texts(items), ","@, items.len()) + ")"@,
    }
}

/// A row as text: its values, separated by commas.
pub open spec fn row_text(row: Seq<ValueView>) -> Seq<char> {
    joined(value_texts(row), ","@, row.len())
}

/// The names under which columns are shown: of each name the part behind its last `.`.
pub open spec fn shown_names(columns: Seq<ColumnView>) -> Seq<Seq<char>> {
    Seq::new(columns.len(), |i: int| field_of(columns[i].name))
}

/// The texts of a sequence of rows.
pub open spec fn row_texts(rows: Seq<Seq<ValueView>>) -> Seq<Seq<char>> {
    Seq::new(rows.len(), |i: int| row_text(rows[i]))
}

/// A table as text: a line with the names of the columns, separated by commas, then
/// one line for each row. No newline stands behind the last row.
pub open spec fn table_text(table: TableView) -> Seq<char> {
    joined(shown_names(table.columns), ","@, table.columns.len()) + "\n"@ + joined(
        row_texts(table.rows),
        "\n"@,
        table.rows.len(),
    )
}

/// The texts of the values of a row.
#[verifier::loop_isolation(false)]
pub fn strings_of(values: &Vec<Value>) -> (texts: Vec<String>)
    ensures
        texts.len() == values.len(),
        Seq::new(texts@.len(), |i: int| texts@[i]@) == value_texts(views_of(values@)),
    decreases values,
{
    let mut texts: Vec<String> = Vec::new();
    let mut i: usize = 0;
    while i < values.len()
        invariant
            i <= values.len(),
            texts.len() == i,
            forall|j: int| 0 <= j < i ==> (#[trigger] texts[j])@ == value_text(values[j]@),
        decreases values.len() - i,
    {
        texts.push(values[i].to_string());
        i += 1;
    }
    assert(Seq::new(texts@.len(), |i: int| texts@[i]@) =~= value_texts(views_of(values@)));
    texts
}

impl Value {
    /// This value as text.
    pub fn to_string(&self) -> (s: String)
        ensures
            s@ == value_text(self@),
        decreases self,
    {
        match self {
            Value::Null => String::from_str("null"),
            Value::Number(n) => decimal_string(*n as u64),
            Value::Text(s) => s.clone(),
            Value::Boolean(b) => if *b {
                String::from_str("true")
            } else {
                String::from_str("false")
            },
            Value::List(l) => {
                let texts = strings_of(&l.0);
                let inner = join_strings(&texts, ",");
                let mut s = String::from_str("(");
                s.append(inner.as_str());
                s.append(")");
                assert(views_of(l.0@).len() == l.0@.len());
                s
            },
        }
    }
}

impl Row {
    /// This row as text: its values, separated by commas.
    pub fn to_string(&self) -> (s: String)
        ensures
            s@ == row_text(self@),
    {
        let texts = strings_of(&self.0);
        assert(self@.len() == self.0@.len());
        join_strings(&texts, ",")
    }
}

impl Column {
    /// The name under which this column is shown: the part of its name behind the last
    /// `.`, or the whole name where it holds none.
    pub fn to_string(&self) -> (s: String)
        ensures
            s@ == field_of(self@.name),
    {
        let name = chars_of(self.name.as_str());
        match find_last_dot(&name) {
            Some(dot) => {
                assert(name@.skip(dot + 1) =~= name@.subrange(dot + 1, name@.len() as int));
                string_of(&name, dot + 1, name.len())
            },
            None => self.name.clone(),
        }
    }
}

impl Table {
    /// This table as text: a line with the names of the columns, then one line for
    /// each row.
    pub fn to_string(&self) -> (s: String)
        ensures
            s@ == table_text(self@),
    {
        let mut names: Vec<String> = Vec::new();
        let mut i: usize = 0;
        while i < self.columns.len()
            invariant
                i <= self.columns.len(),
                names.len() == i,
                forall|j: int|
                    0 <= j < i ==> (#[trigger] names[j])@ == field_of(self@.columns[j].name),
            decreases self.columns.len() - i,
        {
            names.push(self.columns[i].to_string());
            i += 1;
        }
        assert(Seq::new(names@.len(), |i: int| names@[i]@) =~= shown_names(self@.columns));
        let mut lines: Vec<String> = Vec::new();
        let mut r: usize = 0;
        while r < self.rows.len()
            invariant
                r <= self.rows.len(),
                lines.len() == r,
                forall|j: int| 0 <= j < r ==> (#[trigger] lines[j])@ == row_text(self@.rows[j]),
            decreases self.rows.len() - r,
        {
            lines.push(self.rows[r].to_string());
            r += 1;
        }
        assert(Seq::new(lines@.len(), |i: int| lines@[i]@) =~= row_texts(self@.rows));
        let mut s = join_strings(&names, ",");
        s.append("\n");
        let body = join_strings(&lines, "\n");
        s.append(body.as_str());
        s
    }
}

} // verus!
