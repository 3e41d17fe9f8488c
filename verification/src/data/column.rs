use crate::data::datatype::Datatype;
use vstd::prelude::*;

verus! {

/// A column of a table: its name and the type of its values.
///
/// While a query runs, the name of a column may carry the scope it came from, in the
/// form `scope.field`.
#[derive(Debug)]
pub struct Column {
    pub name: String,
    pub datatype: Datatype,
}

/// What a `Column` stands for.
pub struct ColumnView {
    pub name: Seq<char>,
    pub datatype: Datatype,
}

impl View for Column {
    type V = ColumnView;

    open spec fn view(&self) -> ColumnView {
        ColumnView { name: self.name@, datatype: self.datatype }
    }
}

/// The views of a sequence of columns.
pub open spec fn columns_view(columns: Seq<Column>) -> Seq<ColumnView> {
    columns.map_values(|c: Column| c@)
}

impl PartialEq for Column {
    fn eq(&self, other: &Column) -> (r: bool) {
        self.name == other.name && self.datatype == other.datatype
    }
}

impl vstd::std_specs::cmp::PartialEqSpecImpl for Column {
    open spec fn obeys_eq_spec() -> bool {
        true
    }

    open spec fn eq_spec(&self, other: &Column) -> bool {
        self@ == other@
    }
}

impl Clone for Column {
    fn clone(&self) -> (res: Column)
        ensures
            res@ == self@,
    {
        Column { name: self.name.clone(), datatype: self.datatype }
    }
}

} // verus!
