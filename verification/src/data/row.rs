use crate::data::value::views_of;
use crate::data::value::Value;
use crate::data::value::ValueView;
use vstd::prelude::*;

verus! {

/// A row of a table: one value for each column, in the order of the columns.
#[derive(Debug)]
pub struct Row(pub Vec<Value>);

impl View for Row {
    type V = Seq<ValueView>;

    open spec fn view(&self) -> Seq<ValueView> {
        views_of(self.0@)
    }
}

/// The views of a sequence of rows.
pub open spec fn rows_view(rows: Seq<Row>) -> Seq<Seq<ValueView>> {
    rows.map_values(|r: Row| r@)
}

/// Copies the values of a slice of a row.
pub fn clone_values(values: &Vec<Value>) -> (res: Vec<Value>)
    ensures
        views_of(res@) == views_of(values@),
{
    let mut out: Vec<Value> = Vec::new();
    let mut i: usize = 0;
    while i < values.len()
        invariant
            i <= values.len(),
            out.len() == i,
            forall|j: int| 0 <= j < i ==> out[j]@ == values[j]@,
        decreases values.len() - i,
    {
        out.push(values[i].clone());
        i += 1;
    }
    assert(views_of(out@) =~= views_of(values@));
    out
}

/// Whether two sequences of values hold equal values at every place.
pub fn same_values(a: &Vec<Value>, b: &Vec<Value>) -> (r: bool)
    ensures
        r == (views_of(a@) == views_of(b@)),
{
    if a.len() != b.len() {
        assert(views_of(a@).len() != views_of(b@).len());
        return false;
    }
    let mut i: usize = 0;
    while i < a.len()
        invariant
            i <= a.len(),
            a.len() == b.len(),
            forall|j: int| 0 <= j < i ==> a[j]@ == b[j]@,
        decreases a.len() - i,
    {
        if !a[i].same(&b[i]) {
            assert(views_of(a@)[i as int] != views_of(b@)[i as int]);
            return false;
        }
        i += 1;
    }
    assert(views_of(a@) =~= views_of(b@));
    true
}

impl PartialEq for Row {
    fn eq(&self, other: &Row) -> (r: bool) {
        same_values(&self.0, &other.0)
    }
}

impl vstd::std_specs::cmp::PartialEqSpecImpl for Row {
    open spec fn obeys_eq_spec() -> bool {
        true
    }

    open spec fn eq_spec(&self, other: &Row) -> bool {
        self@ == other@
    }
}

impl Clone for Row {
    fn clone(&self) -> (res: Row)
        ensures
            res@ == self@,
    {
        Row(clone_values(&self.0))
    }
}

} // verus!
