use vstd::prelude::*;

verus! {

/// An opaque handle naming one row of every component column.
#[derive(PartialEq, Eq, Structural, PartialOrd, Ord, Hash, Clone, Copy, Debug)]
pub struct Entity(u32);

impl Entity {
    /// The row index this entity names.
    pub closed spec fn index(self) -> nat {
        self.0 as nat
    }

    /// The entity naming row `i`; only the store hands these out.
    pub(crate) fn from_index(i: u32) -> (r: Entity)
        ensures
            r.index() == i as nat,
    {
        Entity(i)
    }

    /// This entity's row index as a `usize`.
    #[must_use]
    pub fn i(self) -> (r: usize)
        ensures
            r as nat == self.index(),
    {
        self.0 as usize
    }
}

} // verus!
