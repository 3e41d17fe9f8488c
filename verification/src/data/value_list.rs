use crate::data::table::Table;
use crate::data::value::views_of;
use crate::execute::evaluate::first_values;
use crate::data::value::Value;
use crate::data::value::ValueView;
use vstd::prelude::*;

verus! {

/// The values that a subquery returned: one per row.
#[derive(Debug)]
pub struct ValueList(pub Vec<Value>);

impl View for ValueList {
    type V = Seq<ValueView>;

    open spec fn view(&self) -> Seq<ValueView> {
        views_of(self.0@)
    }
}

impl PartialEq for ValueList {
    fn eq(&self, other: &ValueList) -> (r: bool) {
        crate::data::row::same_values(&self.0, &other.0)
    }
}

impl vstd::std_specs::cmp::PartialEqSpecImpl for ValueList {
    open spec fn obeys_eq_spec() -> bool {
        true
    }

    open spec fn eq_spec(&self, other: &ValueList) -> bool {
        self@ == other@
    }
}

impl ValueList {
    /// The values of a table of one column, in the order of its rows.
    pub fn from_table(table: &Table) -> (list: ValueList)
        requires
            table@.well_shaped(),
            table.columns.len() == 1,
        ensures
            list@ == first_values(table@.rows),
    {
        let mut values: Vec<Value> = Vec::new();
        let mut i: usize = 0;
        while i < table.rows.len()
            invariant
                i <= table.rows.len(),
                table@.well_shaped(),
                table.columns.len() == 1,
                values.len() == i,
                forall|j: int| 0 <= j < i ==> values[j]@ == table@.rows[j][0],
            decreases table.rows.len() - i,
        {
            assert(table@.rows[i as int].len() == 1);
            values.push(table.rows[i].0[0].clone());
            i += 1;
        }
        let list = ValueList(values);
        assert(list@ =~= first_values(table@.rows));
        list
    }

    /// Whether one of the values equals `other`.
    pub fn contains(&self, other: Value) -> (found: bool)
        ensures
            found == self@.contains(other@),
    {
        let mut i: usize = 0;
        while i < self.0.len()
            invariant
                i <= self.0.len(),
                forall|j: int| 0 <= j < i ==> self@[j] != other@,
            decreases self.0.len() - i,
        {
            if self.0[i].same(&other) {
                assert(self@[i as int] == other@);
                return true;
            }
            i += 1;
        }
        false
    }
}

} // verus!
