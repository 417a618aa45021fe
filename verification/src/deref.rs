//! Dereferencing that may find nothing.

use vstd::prelude::*;

verus! {

/// Immutable access to a value that may be absent.
pub trait TryDeref {
    type Target;

    /// The value that dereferencing reaches, if any.
    spec fn spec_try_deref(&self) -> Option<Self::Target>;

    /// Returns a reference to the value, if there is one.
    fn try_deref(&self) -> (target: Option<&Self::Target>)
        ensures
            target.is_some() == self.spec_try_deref().is_some(),
            target.is_some() ==> *target.unwrap() == self.spec_try_deref().unwrap(),
    ;
}

/// Mutable access to a value that may be absent.
pub trait TryDerefMut: TryDeref {
    /// Returns a mutable reference to the value, if there is one. Whatever
    /// is written through it is the value from then on, and a value can
    /// neither appear nor vanish that way.
    fn try_deref_mut(&mut self) -> (target: Option<&mut Self::Target>)
        ensures
            target.is_some() == old(self).spec_try_deref().is_some(),
            target.is_some() ==> *target.unwrap() == old(self).spec_try_deref().unwrap(),
            final(self).spec_try_deref() == match target {
                Some(value) => Some(*final(value)),
                None => None,
            },
    ;
}

} // verus!
