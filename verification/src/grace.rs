//! The grace period: a time after the server started in which clients get back the state that
//! they had before, and get no new state.
//!
//! An operation that depends on being in the grace period, or out of it, holds a reference while
//! it runs. While references are held, the period neither starts nor ends; a wish to do so is
//! noted, and stops new references.

use crate::error::Nfs4Status;
use crate::lease::passed;
use crate::time::{Clock, Duration};
use std::sync::Arc;
use vstd::prelude::*;

verus! {

/// How long the grace period lasts, in seconds.
pub const DEFAULT_GRACE_PERIOD_SECS: u64 = 90;

/// The most references that can be held at once.
pub const MAX_REFS: u32 = 0x3fff_ffff;

/// `libc::EAGAIN`, the error number for "try again". Which number it is, and of which sign, differs
/// between systems; on none is it the least number that there is, so that it has an opposite.
#[verifier::external_body]
fn eagain() -> (r: i32)
    ensures
        r != i32::MIN,
{
    libc::EAGAIN
}

// ---------------------------------------------------------------------------
// Where clients are remembered
// ---------------------------------------------------------------------------

/// What remembers clients across a restart of the server. Unless an implementation does
/// otherwise, nothing is remembered and nothing fails.
pub trait RecoveryBackend: Send + Sync {
    /// Gets ready.
    fn init(&self) -> (r: Result<(), String>)
        default_ensures
            r is Ok,
    {
        Ok(())
    }

    /// Is used no more.
    fn shutdown(&self) {
    }

    /// The clients that are remembered.
    fn read_client_ids(&self) -> (r: Result<Vec<String>, String>)
        default_ensures
            r is Ok && r->Ok_0@.len() == 0,
    {
        Ok(Vec::new())
    }

    /// Remembers a client.
    fn add_client(&self, _client_id: u64) -> (r: Result<(), String>)
        default_ensures
            r is Ok,
    {
        Ok(())
    }

    /// Forgets a client.
    fn remove_client(&self, _client_id: u64) -> (r: Result<(), String>)
        default_ensures
            r is Ok,
    {
        Ok(())
    }

    /// The client has got back what it had.
    fn reclaim_complete(&self, _client_id: u64) -> (r: Result<(), String>)
        default_ensures
            r is Ok,
    {
        Ok(())
    }

    /// Whether the server is one of a cluster.
    fn is_cluster_member(&self) -> (r: bool)
        default_ensures
            !r,
    {
        false
    }

    /// The number of the server in its cluster.
    fn get_node_id(&self) -> (r: Option<i32>)
        default_ensures
            r is None,
    {
        None
    }
}

/// Remembers nothing.
#[derive(Clone, Copy, Debug)]
pub struct NoOpRecoveryBackend;

impl RecoveryBackend for NoOpRecoveryBackend {

}

/// Stands for remembering clients in files; remembers nothing as yet.
#[derive(Clone, Copy, Debug)]
pub struct FilesystemRecoveryBackend {
    _marker: (),
}

impl Default for FilesystemRecoveryBackend {
    fn default() -> (r: Self) {
        FilesystemRecoveryBackend { _marker: () }
    }
}

impl FilesystemRecoveryBackend {
    /// The one such backend there is.
    pub fn new() -> (r: Self) {
        Self::default()
    }
}

impl RecoveryBackend for FilesystemRecoveryBackend {

}

// ---------------------------------------------------------------------------
// Configuration
// ---------------------------------------------------------------------------

/// How the grace period is to work.
#[derive(Clone, Copy, Debug, PartialEq, Eq, Structural)]
pub struct GracePeriodConfig {
    pub grace_period_secs: u64,
    /// Whether references keep the period from starting and ending.
    pub sticky_grace: bool,
    /// Whether there is no grace period at all.
    pub graceless: bool,
}

impl Default for GracePeriodConfig {
    fn default() -> (r: Self)
        ensures
            r == (GracePeriodConfig {
                grace_period_secs: DEFAULT_GRACE_PERIOD_SECS,
                sticky_grace: true,
                graceless: false,
            }),
    {
        GracePeriodConfig {
            grace_period_secs: DEFAULT_GRACE_PERIOD_SECS,
            sticky_grace: true,
            graceless: false,
        }
    }
}

impl GracePeriodConfig {
    /// The default with another length.
    pub fn with_duration(grace_period_secs: u64) -> (r: Self)
        ensures
            r == (GracePeriodConfig { grace_period_secs, sticky_grace: true, graceless: false }),
    {
        GracePeriodConfig { grace_period_secs, sticky_grace: true, graceless: false }
    }

    /// No grace period.
    pub fn graceless() -> (r: Self)
        ensures
            r == (GracePeriodConfig {
                grace_period_secs: DEFAULT_GRACE_PERIOD_SECS,
                sticky_grace: true,
                graceless: true,
            }),
    {
        GracePeriodConfig {
            grace_period_secs: DEFAULT_GRACE_PERIOD_SECS,
            sticky_grace: true,
            graceless: true,
        }
    }
}

// ---------------------------------------------------------------------------
// The period itself
// ---------------------------------------------------------------------------

/// The grace period.
pub struct GracePeriodManager {
    /// Whether the period is on.
    pub active: bool,
    /// Whether the period is to start or to end as soon as no reference is held.
    pub change_req: bool,
    /// How many references are held.
    pub refs: u32,
    /// When the period started, on `clock`.
    pub start_time: Option<Duration>,
    pub duration: Duration,
    pub sticky_grace: bool,
    pub graceless: bool,
    pub shutdown: bool,
    pub clock: Clock,
    pub recovery_backend: Option<Arc<dyn RecoveryBackend>>,
}

impl GracePeriodManager {
    /// No more references are held than can be counted.
    pub open spec fn wf(&self) -> bool {
        self.refs <= MAX_REFS
    }

    /// A period as configured, which is not on.
    pub fn new(config: GracePeriodConfig) -> (r: Self)
        ensures
            r.wf(),
            !r.active,
            !r.change_req,
            r.refs == 0,
            r.start_time is None,
            r.duration.nanos == config.grace_period_secs * crate::time::NANOS_PER_SEC,
            r.sticky_grace == config.sticky_grace,
            r.graceless == config.graceless,
            !r.shutdown,
            r.recovery_backend is None,
    {
        GracePeriodManager {
            active: false,
            change_req: false,
            refs: 0,
            start_time: None,
            duration: Duration::from_secs(config.grace_period_secs),
            sticky_grace: config.sticky_grace,
            graceless: config.graceless,
            shutdown: false,
            clock: Clock::start(),
            recovery_backend: None,
        }
    }

    /// A period of the default configuration.
    pub fn with_default_config() -> (r: Self)
        ensures
            r.wf(),
            !r.active,
            !r.change_req,
            r.refs == 0,
            r.start_time is None,
            r.sticky_grace,
            !r.graceless,
            !r.shutdown,
            r.recovery_backend is None,
            r.duration.nanos == DEFAULT_GRACE_PERIOD_SECS * crate::time::NANOS_PER_SEC,
    {
        Self::new(GracePeriodConfig::default())
    }

    /// The same but for what remembers clients.
    pub open spec fn same_period(&self, other: &Self) -> bool {
        &&& self.active == other.active
        &&& self.change_req == other.change_req
        &&& self.refs == other.refs
        &&& self.start_time == other.start_time
        &&& self.duration == other.duration
        &&& self.sticky_grace == other.sticky_grace
        &&& self.graceless == other.graceless
        &&& self.shutdown == other.shutdown
        &&& self.clock == other.clock
    }

    /// Sets what remembers clients.
    pub fn with_recovery_backend(self, backend: Option<Arc<dyn RecoveryBackend>>) -> (r: Self)
        ensures
            r.recovery_backend == backend,
            r.same_period(&self),
    {
        let mut m = self;
        m.recovery_backend = backend;
        m
    }

    /// What remembers clients.
    pub fn recovery_backend(&self) -> (r: Option<&Arc<dyn RecoveryBackend>>)
        ensures
            r is Some <==> self.recovery_backend is Some,
            r is Some ==> *r->Some_0 == self.recovery_backend->Some_0,
    {
        self.recovery_backend.as_ref()
    }

    /// Whether the period is on.
    pub fn in_grace(&self) -> (r: bool)
        ensures
            r == self.active,
    {
        self.active
    }

    /// Whether an operation that wants the period to be on, or to be off, can start.
    pub open spec fn admits(&self, want_grace: bool) -> bool {
        want_grace == self.active && (self.sticky_grace ==> !self.change_req)
    }

    /// Asks for a reference for an operation that wants the period to be on, or to be off.
    pub fn get_grace_status(&mut self, want_grace: bool) -> (r: bool)
        requires
            old(self).refs < MAX_REFS,
        ensures
            r == old(self).admits(want_grace),
            *final(self) == (if r && old(self).sticky_grace {
                GracePeriodManager { refs: (old(self).refs + 1) as u32, ..*old(self) }
            } else {
                *old(self)
            }),
    {
        if !self.sticky_grace {
            return want_grace == self.active;
        }
        if want_grace != self.active || self.change_req {
            return false;
        }
        self.refs = self.refs + 1;
        true
    }

    /// Gives a reference back.
    pub fn put_grace_status(&mut self)
        requires
            old(self).sticky_grace ==> old(self).refs > 0,
        ensures
            *final(self) == (if old(self).sticky_grace {
                GracePeriodManager { refs: (old(self).refs - 1) as u32, ..*old(self) }
            } else {
                *old(self)
            }),
    {
        if self.sticky_grace {
            self.refs = self.refs - 1;
        }
    }

    /// Whether references keep the period from starting or ending.
    pub open spec fn held(&self) -> bool {
        self.sticky_grace && self.refs > 0
    }

    /// The period after it was asked to start at `now`.
    pub open spec fn entering(self, now: Duration) -> GracePeriodManager {
        if self.graceless || self.active {
            self
        } else if self.held() {
            GracePeriodManager { change_req: true, ..self }
        } else {
            GracePeriodManager { active: true, change_req: false, start_time: Some(now), ..self }
        }
    }

    /// Starts the period at `now`. Where references are held, it is noted that the period is to
    /// start, and the opposite of the error number for "try again" comes back. That number is the
    /// system's own.
    pub fn enter_grace_period_at(&mut self, now: Duration) -> (r: Result<(), i32>)
        ensures
            *final(self) == old(self).entering(now),
            r is Err <==> !old(self).graceless && !old(self).active && old(self).held(),
            r is Err ==> r->Err_0 != i32::MIN,
    {
        if self.graceless {
            return Ok(());
        }
        if self.active {
            return Ok(());
        }
        if self.sticky_grace && self.refs > 0 {
            self.change_req = true;
            return Err(-eagain());
        }
        self.active = true;
        self.change_req = false;
        self.start_time = Some(now);
        Ok(())
    }

    /// Starts the period.
    pub fn enter_grace_period(&mut self) -> (r: Result<(), i32>)
        ensures
            exists|now: Duration| *final(self) == #[trigger] old(self).entering(now),
            r is Err <==> !old(self).graceless && !old(self).active && old(self).held(),
            r is Err ==> r->Err_0 != i32::MIN,
    {
        let now = self.clock.now();
        self.enter_grace_period_at(now)
    }

    /// The period after it was ended.
    pub open spec fn exiting(self) -> GracePeriodManager {
        if self.active {
            GracePeriodManager { active: false, change_req: false, start_time: None, ..self }
        } else {
            self
        }
    }

    /// Ends the period. No reference may be held that keeps it from ending.
    pub fn exit_grace_period(&mut self)
        requires
            old(self).active ==> !old(self).held(),
        ensures
            *final(self) == old(self).exiting(),
    {
        if !self.active {
            return;
        }
        self.start_time = None;
        self.active = false;
        self.change_req = false;
    }

    /// Whether the period has lasted as long as it should.
    pub open spec fn expired_at(&self, now: Duration) -> bool {
        match self.start_time {
            Some(start) => passed(start, now) >= self.duration.nanos,
            None => true,
        }
    }

    fn has_expired_at(&self, now: Duration) -> (r: bool)
        ensures
            r == self.expired_at(now),
    {
        match self.start_time {
            Some(start) => now.saturating_sub(start).nanos >= self.duration.nanos,
            None => true,
        }
    }

    /// Whether the period can be ended at `now`.
    pub open spec fn lifts_at(&self, now: Duration) -> bool {
        self.active && self.expired_at(now) && !self.held()
    }

    /// The period after it was looked at `now` whether it can be ended.
    pub open spec fn lifting(self, now: Duration) -> GracePeriodManager {
        if self.lifts_at(now) {
            self.exiting()
        } else if self.active && self.expired_at(now) {
            GracePeriodManager { change_req: true, ..self }
        } else {
            self
        }
    }

    /// Ends the period if it has lasted as long as it should at `now`. Where references are held,
    /// it is noted that the period is to end.
    pub fn try_lift_grace_at(&mut self, now: Duration) -> (r: bool)
        ensures
            r == old(self).lifts_at(now),
            *final(self) == old(self).lifting(now),
    {
        if !self.active {
            return false;
        }
        if !self.has_expired_at(now) {
            return false;
        }
        if self.sticky_grace {
            self.change_req = true;
            if self.refs > 0 {
                return false;
            }
        }
        self.exit_grace_period();
        true
    }

    /// Ends the period if it has lasted as long as it should.
    pub fn try_lift_grace(&mut self) -> (r: bool)
        ensures
            exists|now: Duration|
                r == old(self).lifts_at(now) && *final(self) == #[trigger] old(self).lifting(now),
    {
        let now = self.clock.now();
        self.try_lift_grace_at(now)
    }

    /// How much of the period is left at `now`; nothing where it is not on.
    pub open spec fn left_at(&self, now: Duration) -> Option<Duration> {
        if self.active && self.start_time is Some && passed(self.start_time->Some_0, now)
            < self.duration.nanos {
            Some(
                Duration {
                    nanos: (self.duration.nanos - passed(self.start_time->Some_0, now)) as u128,
                },
            )
        } else {
            None
        }
    }

    /// How much of the period is left at `now`; nothing where it is not on.
    pub fn remaining_time_at(&self, now: Duration) -> (r: Option<Duration>)
        ensures
            r == self.left_at(now),
    {
        if !self.active {
            return None;
        }
        match self.start_time {
            Some(start) => {
                let elapsed = now.saturating_sub(start);
                if elapsed.nanos < self.duration.nanos {
                    Some(self.duration.saturating_sub(elapsed))
                } else {
                    None
                }
            },
            None => None,
        }
    }

    /// How much of the period is left; nothing where it is not on.
    pub fn remaining_time(&self) -> (r: Option<Duration>)
        ensures
            exists|now: Duration| r == #[trigger] self.left_at(now),
            !self.active ==> r is None,
    {
        let now = self.clock.now();
        self.remaining_time_at(now)
    }

    /// What an operation is told that wants the period to be on, or to be off, and cannot start.
    pub open spec fn refusal(want_grace: bool) -> Nfs4Status {
        if want_grace {
            Nfs4Status::NoGrace
        } else {
            Nfs4Status::Grace
        }
    }

    /// Whether the period is on, or off, as an operation wants it. No reference is held.
    pub fn check_operation(&self, want_grace: bool) -> (r: Result<(), Nfs4Status>)
        ensures
            r == (if want_grace == self.active {
                Ok::<(), Nfs4Status>(())
            } else {
                Err(Self::refusal(want_grace))
            }),
    {
        if want_grace == self.active {
            Ok(())
        } else if want_grace {
            Err(Nfs4Status::NoGrace)
        } else {
            Err(Nfs4Status::Grace)
        }
    }

    /// Asks for a reference for an operation that wants the period to be on, or to be off. It is
    /// given back with `release`.
    pub fn acquire_grace_status(&mut self, want_grace: bool) -> (r: Result<GraceGuard, Nfs4Status>)
        requires
            old(self).refs < MAX_REFS,
        ensures
            r is Ok <==> old(self).admits(want_grace),
            r is Err ==> r->Err_0 == Self::refusal(want_grace),
            *final(self) == (if r is Ok && old(self).sticky_grace {
                GracePeriodManager { refs: (old(self).refs + 1) as u32, ..*old(self) }
            } else {
                *old(self)
            }),
    {
        if self.get_grace_status(want_grace) {
            Ok(GraceGuard { _held: () })
        } else if want_grace {
            Err(Nfs4Status::NoGrace)
        } else {
            Err(Nfs4Status::Grace)
        }
    }

    /// How long the period lasts.
    pub fn get_duration(&self) -> (r: Duration)
        ensures
            r == self.duration,
    {
        self.duration
    }

    /// The server is to stop.
    pub fn shutdown(&mut self)
        ensures
            *final(self) == (GracePeriodManager { shutdown: true, ..*old(self) }),
    {
        self.shutdown = true;
    }

    /// Whether the server is to stop.
    pub fn is_shutdown(&self) -> (r: bool)
        ensures
            r == self.shutdown,
    {
        self.shutdown
    }
}

impl Default for GracePeriodManager {
    fn default() -> (r: Self)
        ensures
            r.wf(),
            !r.active,
            !r.change_req,
            r.refs == 0,
            r.start_time is None,
            r.sticky_grace,
            !r.graceless,
            !r.shutdown,
            r.recovery_backend is None,
            r.duration.nanos == DEFAULT_GRACE_PERIOD_SECS * crate::time::NANOS_PER_SEC,
    {
        Self::with_default_config()
    }
}

/// A reference that an operation holds while it runs.
pub struct GraceGuard {
    _held: (),
}

impl GraceGuard {
    /// Gives the reference back.
    pub fn release(self, grace: &mut GracePeriodManager)
        requires
            old(grace).sticky_grace ==> old(grace).refs > 0,
        ensures
            *final(grace) == (if old(grace).sticky_grace {
                GracePeriodManager { refs: (old(grace).refs - 1) as u32, ..*old(grace) }
            } else {
                *old(grace)
            }),
    {
        grace.put_grace_status();
    }
}

/// What looks from time to time whether the period can be ended.
pub struct GracePeriodReaper<'a> {
    pub grace: &'a mut GracePeriodManager,
}

impl<'a> GracePeriodReaper<'a> {
    /// A reaper for the given period.
    pub fn new(grace: &'a mut GracePeriodManager) -> (r: Self)
        ensures
            *r.grace == *old(grace),
            *final(r.grace) == *final(grace),
    {
        GracePeriodReaper { grace }
    }

    /// Ends the period if it can be ended.
    pub fn run(&mut self) -> (r: bool)
        ensures
            exists|now: Duration|
                r == old(self).grace.lifts_at(now) && *final(self).grace == #[trigger] old(
                    self,
                ).grace.lifting(now),
    {
        self.grace.try_lift_grace()
    }

    /// Whether there is nothing left to look at.
    pub fn terminate(&self) -> (r: bool)
        ensures
            r == old(self.grace).shutdown,
    {
        self.grace.is_shutdown()
    }
}

// ---------------------------------------------------------------------------
// Laws
// ---------------------------------------------------------------------------

/// While an operation holds a reference, the period neither starts nor ends.
pub proof fn law_held_period_does_not_change(g: GracePeriodManager, now: Duration)
    requires
        g.held(),
    ensures
        g.entering(now).active == g.active,
        g.lifting(now).active == g.active,
        !g.lifts_at(now),
{
}

/// Once the period is to change, no operation gets a reference until it has changed.
pub proof fn law_wanted_change_stops_new_operations(
    g: GracePeriodManager,
    now: Duration,
    want: bool,
)
    requires
        g.held(),
        !g.graceless,
        !g.active || g.expired_at(now),
    ensures
        !g.active ==> !g.entering(now).admits(want),
        g.active ==> !g.lifting(now).admits(want),
{
}

/// When the last reference is given back, the wanted change takes place at the next attempt.
pub proof fn law_drained_period_changes(g: GracePeriodManager, now: Duration)
    requires
        g.sticky_grace,
        g.refs == 1,
        !g.graceless,
    ensures
        ({
            let drained = GracePeriodManager { refs: 0, ..g };
            &&& !g.active ==> drained.entering(now).active && !drained.entering(now).change_req
            &&& g.active && g.expired_at(now) ==> drained.lifts_at(now) && !drained.lifting(
                now,
            ).active
        }),
{
}

/// A server without a grace period is never in it, and operations that need it are refused.
pub proof fn law_graceless_server_has_no_period(g: GracePeriodManager, now: Duration)
    requires
        g.graceless,
        !g.active,
    ensures
        !g.entering(now).active,
        !g.admits(true),
{
}

/// A period that was started ends when its time has passed, and not before.
pub proof fn law_period_lasts_its_time(g: GracePeriodManager, start: Duration, now: Duration)
    requires
        !g.graceless,
        !g.active,
        !g.held(),
    ensures
        g.entering(start).active,
        g.entering(start).lifts_at(now) <==> passed(start, now) >= g.duration.nanos,
        g.entering(start).left_at(now) is None <==> passed(start, now) >= g.duration.nanos,
{
}

} // verus!
