//! Identity definition.

use vstd::prelude::*;

verus! {

/// An entity that can be uniquely identified.
pub trait Identify {
    type Id: PartialEq;

    /// The identifier of the value, as contracts speak of it.
    spec fn spec_id(&self) -> Self::Id;

    /// Returns the identifier of the value. It depends on the value alone.
    fn id(&self) -> (id: &Self::Id)
        ensures
            *id == self.spec_id(),
    ;
}

} // verus!
