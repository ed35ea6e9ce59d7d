//! Placement of a shape within the frame of its parent.

use vstd::prelude::*;

verus! {

/// A value with the offset of its own frame from its parent's, over the
/// host's points `P`. A distance field under it is evaluated at the query
/// point less the offset.
#[derive(Clone, Copy, Debug)]
pub struct Positioned<P, T> {
    pub pos: P,
    pub value: T,
}

impl<P, T> Positioned<P, T> {
    /// Replaces the value by what `mapper` makes of it, at the same offset.
    pub fn map<U, F: FnOnce(T) -> U>(self, mapper: F) -> (mapped: Positioned<P, U>)
        requires
            mapper.requires((self.value,)),
        ensures
            mapped.pos == self.pos,
            mapper.ensures((self.value,), mapped.value),
    {
        let Positioned { pos, value } = self;
        Positioned { pos, value: mapper(value) }
    }

    /// Pairs a copy of the offset with what `mapper` makes of the value, and
    /// leaves the original as it is.
    pub fn map_copy<U, F: FnOnce(&T) -> U>(&self, mapper: F) -> (mapped: Positioned<P, U>) where
        P: Copy,

        requires
            mapper.requires((&self.value,)),
        ensures
            mapped.pos == self.pos,
            mapper.ensures((&self.value,), mapped.value),
    {
        Positioned { pos: self.pos, value: mapper(&self.value) }
    }
}

} // verus!
