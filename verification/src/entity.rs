use vstd::prelude::*;

verus! {

/// A unique identifier for a game object: a slot index paired with a
/// generation counter. The index `u32::MAX` is a sentinel that marks a
/// permanently invalid handle; the generation of a slot grows each time the
/// slot is freed, so a handle kept across a destroy no longer matches the
/// slot and is rejected by every entity-addressed operation.
#[derive(Debug, Clone, Copy, PartialEq, Eq, Hash, Structural)]
pub struct Entity {
    version: u32,
    index: u32,
}

impl Entity {
    /// The generation counter carried by this handle.
    pub closed spec fn spec_version(self) -> u32 {
        self.version
    }

    /// The slot index carried by this handle.
    pub closed spec fn spec_index(self) -> u32 {
        self.index
    }

    /// A handle is valid unless its index is the sentinel `u32::MAX`.
    pub open spec fn spec_is_valid(self) -> bool {
        self.spec_index() != u32::MAX
    }

    /// The handle with the given slot index and generation zero.
    pub fn new(index: u32) -> (e: Self)
        ensures
            e.spec_index() == index,
            e.spec_version() == 0,
    {
        Entity { version: 0, index }
    }

    /// The handle with the given slot index and generation.
    pub fn with_version(index: u32, version: u32) -> (e: Self)
        ensures
            e.spec_index() == index,
            e.spec_version() == version,
    {
        Entity { version, index }
    }

    pub fn version(&self) -> (v: u32)
        ensures
            v == self.spec_version(),
    {
        self.version
    }

    pub fn index(&self) -> (i: u32)
        ensures
            i == self.spec_index(),
    {
        self.index
    }

    /// Turns this handle into the sentinel form: the index becomes
    /// `u32::MAX` and the generation advances, so no previously issued copy
    /// of the handle matches it any more.
    pub fn invalidate(&mut self)
        requires
            old(self).spec_version() < u32::MAX,
        ensures
            final(self).spec_index() == u32::MAX,
            final(self).spec_version() == old(self).spec_version() + 1,
    {
        self.index = u32::MAX;
        self.version = self.version + 1;
    }

    pub fn is_valid(&self) -> (b: bool)
        ensures
            b == self.spec_is_valid(),
    {
        self.index != u32::MAX
    }
}

} // verus!
