//! Assignment through a destination.
use vstd::prelude::*;

verus! {

/// Generalization of assignment for wrapping types.
///
/// `Model` is what the destination holds as seen in a specification.
pub trait SaveFrom<T> {
    /// The abstract contents of the destination.
    type Model;

    /// The contents.
    spec fn model(&self) -> Self::Model;

    /// The contents after saving `value`.
    spec fn spec_save(m: Self::Model, value: T) -> Self::Model;

    /// Saves `value`.
    fn save_from(&mut self, value: T)
        ensures
            final(self).model() == Self::spec_save(old(self).model(), value),
    ;
}

/// Plain assignment.
impl<'t, T> SaveFrom<T> for &'t mut T {
    type Model = T;

    open spec fn model(&self) -> T {
        **self
    }

    open spec fn spec_save(m: T, value: T) -> T {
        value
    }

    fn save_from(&mut self, value: T) {
        **self = value;
    }
}

} // verus!
