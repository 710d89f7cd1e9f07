//! Destinations that can undo what was written to them.
use vstd::prelude::*;

use crate::scan::field::PushTarget;
use crate::scan::save_from::SaveFrom;

verus! {

/// Wraps a destination and remembers the value it held before the last save,
/// so that a reset can put it back.
pub struct RestoreOnReset<'t, D>(&'t mut D, Option<D>);

impl<'t, D> RestoreOnReset<'t, D> {
    /// What the destination holds.
    pub closed spec fn current(&self) -> D {
        *self.0
    }

    /// What it held before the last save, if there was one.
    pub closed spec fn previous(&self) -> Option<D> {
        self.1
    }

    /// Wraps `destination`; nothing was saved yet.
    pub fn new(destination: &'t mut D) -> (r: Self)
        ensures
            r.current() == *old(destination),
            r.previous() == None::<D>,
    {
        Self(destination, None)
    }

    /// Puts back the value held before the last save, if there was one.
    pub fn reset(&mut self)
        ensures
            final(self).current() == match old(self).previous() {
                Some(p) => p,
                None => old(self).current(),
            },
            final(self).previous() == None::<D>,
    {
        match self.1.take() {
            Some(prev) => {
                *self.0 = prev;
            },
            None => {},
        }
    }
}

impl<'t, D> SaveFrom<D> for RestoreOnReset<'t, D> {
    type Model = (D, Option<D>);

    open spec fn model(&self) -> (D, Option<D>) {
        (self.current(), self.previous())
    }

    open spec fn spec_save(m: (D, Option<D>), value: D) -> (D, Option<D>) {
        (value, Some(m.0))
    }

    fn save_from(&mut self, value: D) {
        let mut prev = value;
        core::mem::swap(&mut *self.0, &mut prev);
        self.1 = Some(prev);
    }
}

/// Wraps a vector and remembers its length, so that a reset can drop what
/// was appended since.
pub struct RestoreLenOnReset<'t, T>(&'t mut T, usize);

impl<'t, T> RestoreLenOnReset<'t, Vec<T>> {
    /// What the vector holds.
    pub closed spec fn items(&self) -> Seq<T> {
        (*self.0)@
    }

    /// The length to go back to.
    pub closed spec fn saved_len(&self) -> usize {
        self.1
    }

    /// Wraps `arg` and remembers its current length.
    pub fn new(arg: &'t mut Vec<T>) -> (r: Self)
        ensures
            r.items() == old(arg)@,
            r.saved_len() == old(arg)@.len(),
    {
        let len = arg.len();
        Self(arg, len)
    }

    /// Drops what was appended since the length was remembered.
    pub fn reset(&mut self)
        ensures
            final(self).items() == (if old(self).saved_len() <= old(self).items().len() {
                old(self).items().take(old(self).saved_len() as int)
            } else {
                old(self).items()
            }),
            final(self).saved_len() == old(self).saved_len(),
    {
        let len = self.1;
        self.0.truncate(len);
    }
}

impl<'t, T> PushTarget<T> for RestoreLenOnReset<'t, Vec<T>> {
    type Model = (Seq<T>, usize);

    open spec fn model(&self) -> (Seq<T>, usize) {
        (self.items(), self.saved_len())
    }

    open spec fn spec_push(m: (Seq<T>, usize), v: T) -> (Seq<T>, usize) {
        (m.0.push(v), m.1)
    }

    fn push_value(&mut self, v: T) {
        self.0.push(v);
    }
}

} // verus!
