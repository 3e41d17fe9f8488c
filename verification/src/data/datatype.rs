use vstd::prelude::*;

verus! {

/// The type of the values that a column holds.
#[derive(Clone, Copy, Debug, PartialEq, Eq, Structural)]
pub enum Datatype {
    Number,
    Text,
    Boolean,
}

} // verus!
