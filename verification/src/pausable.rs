//! An emergency-stop guard: a boolean flag that contract state can embed,
//! with checked transitions between the paused and the running state.

use vstd::prelude::*;

verus! {

/// Errors of the access-control guards.
#[derive(Debug, Clone, Copy, PartialEq, Eq, Structural)]
pub enum AccessError {
    /// Caller is not the owner.
    NotOwner,
    /// Caller is missing a required role.
    MissingRole,
    /// A null account was given where a real one is required.
    ZeroAddress,
    /// The guarded state is paused.
    Paused,
    /// The guarded state is not paused.
    NotPaused,
}

/// The emergency-stop flag.
#[derive(Debug, Clone, Copy, PartialEq, Eq, Structural)]
pub struct PausableData {
    pub paused: bool,
}

impl PausableData {
    /// A fresh guard, in the running (unpaused) state.
    pub fn new() -> (r: Self)
        ensures
            !r.paused,
    {
        PausableData { paused: false }
    }

    /// Whether the guarded state is paused.
    pub fn is_paused(&self) -> (r: bool)
        ensures
            r == self.paused,
    {
        self.paused
    }

    /// Succeeds exactly when the guarded state is running.
    pub fn ensure_not_paused(&self) -> (r: Result<(), AccessError>)
        ensures
            r == if self.paused {
                Err::<(), AccessError>(AccessError::Paused)
            } else {
                Ok::<(), AccessError>(())
            },
    {
        if self.paused {
            Err(AccessError::Paused)
        } else {
            Ok(())
        }
    }

    /// Succeeds exactly when the guarded state is paused.
    pub fn ensure_paused(&self) -> (r: Result<(), AccessError>)
        ensures
            r == if self.paused {
                Ok::<(), AccessError>(())
            } else {
                Err::<(), AccessError>(AccessError::NotPaused)
            },
    {
        if self.paused {
            Ok(())
        } else {
            Err(AccessError::NotPaused)
        }
    }

    /// Stops the guarded state; fails when it is already stopped.
    pub fn pause(&mut self) -> (r: Result<(), AccessError>)
        ensures
            old(self).paused ==> r == Err::<(), AccessError>(AccessError::Paused)
                && final(self).paused,
            !old(self).paused ==> r == Ok::<(), AccessError>(()) && final(self).paused,
    {
        if self.paused {
            Err(AccessError::Paused)
        } else {
            self.paused = true;
            Ok(())
        }
    }

    /// Resumes the guarded state; fails when it is already running.
    pub fn unpause(&mut self) -> (r: Result<(), AccessError>)
        ensures
            !old(self).paused ==> r == Err::<(), AccessError>(AccessError::NotPaused)
                && !final(self).paused,
            old(self).paused ==> r == Ok::<(), AccessError>(()) && !final(self).paused,
    {
        if self.paused {
            self.paused = false;
            Ok(())
        } else {
            Err(AccessError::NotPaused)
        }
    }
}

} // verus!
