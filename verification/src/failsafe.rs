//! The commissioning failsafe: armed by one session mode, it may be re-armed
//! or disarmed only by that same mode, and it expires at a deadline.

use crate::error::Error;
use crate::session::SessionMode;
use vstd::prelude::*;

verus! {

/// Disarmed, or armed until `deadline` by `armed_by`.
#[derive(Clone, Copy, Debug, PartialEq, Eq, Structural)]
pub enum FailSafeState {
    Disarmed,
    Armed { deadline: u64, armed_by: SessionMode },
}

/// Whether `by` may arm the failsafe in state `s`.
pub open spec fn spec_arm_allowed(s: FailSafeState, by: SessionMode) -> bool {
    match s {
        FailSafeState::Disarmed => true,
        FailSafeState::Armed { armed_by, .. } => armed_by == by,
    }
}

/// Whether `by` may disarm the failsafe in state `s`.
pub open spec fn spec_disarm_allowed(s: FailSafeState, by: SessionMode) -> bool {
    match s {
        FailSafeState::Disarmed => false,
        FailSafeState::Armed { armed_by, .. } => armed_by == by,
    }
}

/// The commissioning failsafe timer.
#[derive(Clone, Copy, Debug, PartialEq, Eq, Structural)]
pub struct FailSafe {
    pub state: FailSafeState,
}

impl FailSafe {
    pub fn new() -> (r: FailSafe)
        ensures
            r.state == FailSafeState::Disarmed,
    {
        FailSafe { state: FailSafeState::Disarmed }
    }

    /// Arms the failsafe for `expiry_secs` from `now`. Succeeds exactly when
    /// it is disarmed or already armed by the same session mode.
    pub fn arm(&mut self, expiry_secs: u16, by: SessionMode, now: u64) -> (r: Result<(), Error>)
        requires
            now + expiry_secs * 1000 <= u64::MAX,
        ensures
            match r {
                Ok(()) => {
                    &&& spec_arm_allowed(old(self).state, by)
                    &&& final(self).state == (FailSafeState::Armed {
                        deadline: (now + expiry_secs * 1000) as u64,
                        armed_by: by,
                    })
                },
                Err(e) => {
                    &&& !spec_arm_allowed(old(self).state, by)
                    &&& e == Error::Invalid
                    &&& *final(self) == *old(self)
                },
            },
    {
        let allowed = match &self.state {
            FailSafeState::Disarmed => true,
            FailSafeState::Armed { armed_by, .. } => *armed_by == by,
        };
        if allowed {
            self.state = FailSafeState::Armed {
                deadline: now + (expiry_secs as u64) * 1000,
                armed_by: by,
            };
            Ok(())
        } else {
            Err(Error::Invalid)
        }
    }

    /// Disarms the failsafe. Succeeds exactly when it is armed by the same
    /// session mode.
    pub fn disarm(&mut self, by: SessionMode) -> (r: Result<(), Error>)
        ensures
            match r {
                Ok(()) => {
                    &&& spec_disarm_allowed(old(self).state, by)
                    &&& final(self).state == FailSafeState::Disarmed
                },
                Err(e) => {
                    &&& !spec_disarm_allowed(old(self).state, by)
                    &&& e == Error::Invalid
                    &&& *final(self) == *old(self)
                },
            },
    {
        let allowed = match &self.state {
            FailSafeState::Disarmed => false,
            FailSafeState::Armed { armed_by, .. } => *armed_by == by,
        };
        if allowed {
            self.state = FailSafeState::Disarmed;
            Ok(())
        } else {
            Err(Error::Invalid)
        }
    }

    /// Disarms an armed failsafe whose deadline has passed; reports whether
    /// it fired so the caller can roll back staged state.
    pub fn tick(&mut self, now: u64) -> (r: bool)
        ensures
            r == (old(self).state matches FailSafeState::Armed { deadline, .. } && now >= deadline),
            r ==> final(self).state == FailSafeState::Disarmed,
            !r ==> *final(self) == *old(self),
    {
        match &self.state {
            FailSafeState::Armed { deadline, .. } => {
                if now >= *deadline {
                    self.state = FailSafeState::Disarmed;
                    true
                } else {
                    false
                }
            },
            FailSafeState::Disarmed => false,
        }
    }

    /// Whether the failsafe is armed.
    pub fn is_armed(&self) -> (r: bool)
        ensures
            r == (self.state is Armed),
    {
        match &self.state {
            FailSafeState::Armed { .. } => true,
            FailSafeState::Disarmed => false,
        }
    }
}

/// Disarming succeeds exactly for the session mode that armed: the failsafe
/// authority law.
pub proof fn lemma_failsafe_authority(deadline: u64, armed_by: SessionMode, by: SessionMode)
    ensures
        spec_disarm_allowed(FailSafeState::Armed { deadline, armed_by }, by) <==> by == armed_by,
{
}

} // verus!
