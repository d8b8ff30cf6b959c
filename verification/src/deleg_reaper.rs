//! Taking back delegations that were recalled and not returned in time.

use crate::delegation::DelegationManager;
use crate::time::Duration;
use crate::types::{Clientid4, Fileid4};
use vstd::prelude::*;

verus! {

/// What looks from time to time for recalls that were not answered in time.
#[derive(Clone, Copy, Debug)]
pub struct DelegationReaperTask {
    pub terminated: bool,
}

impl DelegationReaperTask {
    /// It goes on until it is ended.
    pub fn new() -> (r: Self)
        ensures
            !r.terminated,
    {
        DelegationReaperTask { terminated: false }
    }

    /// It is ended.
    pub fn terminate(&mut self)
        ensures
            final(self).terminated,
    {
        self.terminated = true;
    }

    /// Whether it was ended.
    pub fn is_terminated(&self) -> (r: bool)
        ensures
            r == self.terminated,
    {
        self.terminated
    }

    /// It is time: delegations are taken back whose recall was not answered in time.
    pub fn run(&self, delegations: &mut DelegationManager) -> (r: Vec<(Fileid4, Clientid4)>)
        requires
            old(delegations).wf(),
        ensures
            final(delegations).wf(),
            if old(delegations).enabled {
                exists|now: Duration| #[trigger]
                    final(delegations).has_cleaned_up(old(delegations), now, r@)
            } else {
                r@.len() == 0 && *final(delegations) == *old(delegations)
            },
    {
        if !delegations.is_enabled() {
            return Vec::new();
        }
        delegations.cleanup_timed_out_recalls()
    }
}

} // verus!
