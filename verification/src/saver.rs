//! Writing from time to time what clients hold.

use vstd::prelude::*;

verus! {

/// What sees to it that all is written from time to time, and not twice at once.
#[derive(Clone, Copy, Debug)]
pub struct StateSaverTask {
    pub saving: bool,
}

/// How long writing may take, in seconds.
pub const SAVE_TIMEOUT_SECS: u64 = 2;

impl StateSaverTask {
    /// Nothing is being written.
    pub fn new() -> (r: Self)
        ensures
            !r.saving,
    {
        StateSaverTask { saving: false }
    }

    /// It is time: whether all is to be written now.
    pub fn run(&mut self, enabled: bool) -> (r: bool)
        ensures
            r == (enabled && !old(self).saving),
            final(self).saving == (old(self).saving || enabled),
    {
        if !enabled || self.saving {
            return false;
        }
        self.saving = true;
        true
    }

    /// All was written, or it took too long.
    pub fn saved(&mut self)
        ensures
            !final(self).saving,
    {
        self.saving = false;
    }

    /// Whether there is an end to it: there is none.
    pub fn terminate(&self) -> (r: bool)
        ensures
            !r,
    {
        false
    }
}

} // verus!
