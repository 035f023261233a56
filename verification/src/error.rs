use vstd::prelude::*;

verus! {

/// The error taxonomy of the scene's entity-addressed operations.
#[derive(Debug, Clone, Copy, PartialEq, Eq, Structural)]
pub enum RecsError {
    /// Type-erasure resolution found a pool of the wrong stored type for a
    /// component-type identifier. Unreachable under correct bookkeeping; kept
    /// as a defensive signal of a programming error, not a runtime condition
    /// a caller is expected to recover from.
    PoolAccessOrCreationError,
    /// An operation was addressed with a handle whose slot is out of range,
    /// whose generation no longer matches the slot, or whose index is the
    /// invalid sentinel. Recoverable: it means the entity no longer exists.
    InvalidEntityError,
}

impl RecsError {
    /// A short human-readable description of the error.
    pub fn message(&self) -> (m: &'static str)
        ensures
            self is PoolAccessOrCreationError ==> m@ == "error accessing or creating pool"@,
            self is InvalidEntityError ==> m@ == "invalid entity error"@,
    {
        proof {
            reveal_strlit("error accessing or creating pool");
            reveal_strlit("invalid entity error");
        }
        match self {
            RecsError::PoolAccessOrCreationError => "error accessing or creating pool",
            RecsError::InvalidEntityError => "invalid entity error",
        }
    }
}

} // verus!
