//! Single-slot change-notification flag.
//!
//! Any writer of the parameter sets the flag; the UI consumer tests and
//! clears it once per tick. The flag carries no value: the consumer always
//! re-reads the authoritative parameter state, so multiple writes between
//! two polls coalesce into a single consumed notification.

use vstd::prelude::*;

verus! {

/// A single-bit "state changed" signal: set on every parameter write,
/// consumed (tested and cleared) once per UI tick.
pub struct ChangeFlag {
    dirty: bool,
}

/// The flag in its signalled state: a change is pending.
pub closed spec fn marked_flag() -> ChangeFlag {
    ChangeFlag { dirty: true }
}

/// The flag in its quiet state: nothing pending.
pub closed spec fn clean_flag() -> ChangeFlag {
    ChangeFlag { dirty: false }
}

/// The two flag states are told apart by `is_dirty` alone, and every flag
/// is in one of them.
pub proof fn lemma_flag_states(f: ChangeFlag)
    ensures
        marked_flag().is_dirty(),
        !clean_flag().is_dirty(),
        f.is_dirty() ==> f == marked_flag(),
        !f.is_dirty() ==> f == clean_flag(),
{
}

impl ChangeFlag {
    /// Whether a change has been signalled and not yet consumed.
    pub closed spec fn is_dirty(self) -> bool {
        self.dirty
    }

    /// A fresh flag, with no change pending.
    pub fn new() -> (r: ChangeFlag)
        ensures
            r == clean_flag(),
            !r.is_dirty(),
    {
        ChangeFlag { dirty: false }
    }

    /// Signal that the watched state changed. Idempotent.
    pub fn mark_dirty(&mut self)
        ensures
            *final(self) == marked_flag(),
            final(self).is_dirty(),
    {
        self.dirty = true;
    }

    /// Test and clear: report whether any change was signalled since the
    /// previous poll, and reset the flag.
    pub fn consume_if_dirty(&mut self) -> (r: bool)
        ensures
            r == old(self).is_dirty(),
            *final(self) == clean_flag(),
            !final(self).is_dirty(),
    {
        let was = self.dirty;
        self.dirty = false;
        was
    }
}

} // verus!
