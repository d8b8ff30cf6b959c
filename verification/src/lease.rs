//! Leases: how long the state of a client is kept without hearing from it.
//!
//! A lease ends when the client has not renewed it for its lifetime. While an operation of the
//! client is running, the lease is reserved and cannot end.

use crate::table::{keys64, push_one_more, take_one_more};
use crate::time::{Clock, Duration};
use crate::types::Clientid4;
use std::collections::HashMap;
use vstd::prelude::*;

verus! {

broadcast use vstd::std_specs::hash::group_hash_axioms;

/// How long a lease lasts, in seconds.
pub const DEFAULT_LEASE_TIME_SECS: u64 = 60;

/// What has passed between two readings of a clock.
pub open spec fn passed(since: Duration, now: Duration) -> int {
    if now.nanos >= since.nanos {
        now.nanos - since.nanos
    } else {
        0
    }
}

/// The lease of a client.
pub struct LeaseState {
    pub clientid: Clientid4,
    /// The clock that `last_renew` is read from.
    pub clock: Clock,
    pub last_renew: Duration,
    /// How many operations of the client are running.
    pub reservations: u32,
    /// Whether the client has made a session.
    pub confirmed: bool,
    pub marked_for_cleanup: bool,
}

impl LeaseState {
    /// Whether the lease has not ended.
    pub open spec fn valid_at(&self, now: Duration, lifetime: Duration) -> bool {
        self.reservations > 0 || passed(self.last_renew, now) < lifetime.nanos
    }

    /// The whole seconds that are left of the lease.
    pub open spec fn left_at(&self, now: Duration, lifetime: Duration) -> u64 {
        if self.reservations > 0 {
            lifetime.secs()
        } else if passed(self.last_renew, now) >= lifetime.nanos {
            0
        } else {
            (Duration { nanos: (lifetime.nanos - passed(self.last_renew, now)) as u128 }).secs()
        }
    }

    /// A lease that is renewed when it is made.
    pub open spec fn is_new(&self, clientid: Clientid4) -> bool {
        &&& self.clientid == clientid
        &&& self.reservations == 0
        &&& !self.confirmed
        &&& !self.marked_for_cleanup
    }

    /// A new lease with a clock of its own.
    pub fn new(clientid: Clientid4) -> (r: Self)
        ensures
            r.is_new(clientid),
            r.last_renew.nanos == 0,
    {
        LeaseState::new_at(clientid, Clock::start(), Duration { nanos: 0 })
    }

    /// A new lease that is renewed at `now` on the given clock.
    pub fn new_at(clientid: Clientid4, clock: Clock, now: Duration) -> (r: Self)
        ensures
            r.is_new(clientid),
            r.last_renew == now,
            r.clock == clock,
    {
        LeaseState {
            clientid,
            clock,
            last_renew: now,
            reservations: 0,
            confirmed: false,
            marked_for_cleanup: false,
        }
    }

    /// Whether the lease has not ended at `now`.
    pub fn is_valid_at(&self, now: Duration, lease_lifetime: Duration) -> (r: bool)
        ensures
            r == self.valid_at(now, lease_lifetime),
    {
        self.reservations > 0 || now.saturating_sub(self.last_renew).nanos < lease_lifetime.nanos
    }

    /// Whether the lease has not ended. A reserved lease has not, and one without a lifetime
    /// that is not reserved has.
    pub fn is_valid(&self, lease_lifetime: Duration) -> (r: bool)
        ensures
            exists|now: Duration| r == #[trigger] self.valid_at(now, lease_lifetime),
            self.reservations > 0 ==> r,
            self.reservations == 0 && lease_lifetime.nanos == 0 ==> !r,
    {
        let now = self.clock.now();
        self.is_valid_at(now, lease_lifetime)
    }

    /// The whole seconds that are left of the lease at `now`.
    pub fn remaining_secs_at(&self, now: Duration, lease_lifetime: Duration) -> (r: u64)
        ensures
            r == self.left_at(now, lease_lifetime),
    {
        if self.reservations > 0 {
            return lease_lifetime.as_secs();
        }
        let elapsed = now.saturating_sub(self.last_renew);
        if elapsed.nanos >= lease_lifetime.nanos {
            0
        } else {
            lease_lifetime.saturating_sub(elapsed).as_secs()
        }
    }

    /// The whole seconds that are left of the lease.
    pub fn remaining_secs(&self, lease_lifetime: Duration) -> (r: u64)
        ensures
            exists|now: Duration| r == #[trigger] self.left_at(now, lease_lifetime),
            self.reservations > 0 ==> r == lease_lifetime.secs(),
            r <= lease_lifetime.secs(),
    {
        let now = self.clock.now();
        self.remaining_secs_at(now, lease_lifetime)
    }

    /// An operation of the client starts.
    pub fn reserve(&mut self)
        ensures
            *final(self) == (LeaseState {
                reservations: old(self).reservations.wrapping_add(1),
                ..*old(self)
            }),
    {
        self.reservations = self.reservations.wrapping_add(1);
    }

    /// The lease after an operation of the client ended at `now`.
    pub open spec fn released_at(self, now: Duration) -> LeaseState {
        LeaseState {
            reservations: self.reservations.wrapping_sub(1),
            last_renew: if self.reservations == 1 {
                now
            } else {
                self.last_renew
            },
            ..self
        }
    }

    /// An operation of the client ends at `now`; the last one renews the lease.
    pub fn release_and_renew_at(&mut self, now: Duration)
        ensures
            *final(self) == old(self).released_at(now),
    {
        let prev: u32 = self.reservations;
        self.reservations = prev.wrapping_sub(1);
        if prev == 1 {
            self.last_renew = now;
        }
    }

    /// An operation of the client ends; the last one renews the lease.
    pub fn release_and_renew(&mut self)
        ensures
            exists|now: Duration| *final(self) == #[trigger] old(self).released_at(now),
            old(self).reservations != 1 ==> *final(self) == old(self).released_at(
                old(self).last_renew,
            ),
    {
        let now = self.clock.now();
        self.release_and_renew_at(now);
    }

    /// Renews the lease at `now`.
    pub fn renew_at(&mut self, now: Duration)
        ensures
            *final(self) == (LeaseState { last_renew: now, ..*old(self) }),
    {
        self.last_renew = now;
    }

    /// Renews the lease.
    pub fn renew(&mut self)
        ensures
            *final(self) == (LeaseState { last_renew: final(self).last_renew, ..*old(self) }),
    {
        let now = self.clock.now();
        self.renew_at(now);
    }

    /// The client has made a session.
    pub fn confirm(&mut self)
        ensures
            *final(self) == (LeaseState { confirmed: true, ..*old(self) }),
    {
        self.confirmed = true;
    }

    /// Whether the client has made a session.
    pub fn is_confirmed(&self) -> (r: bool)
        ensures
            r == self.confirmed,
    {
        self.confirmed
    }

    /// The client is to be cleaned up later.
    pub fn mark_for_cleanup(&mut self)
        ensures
            *final(self) == (LeaseState { marked_for_cleanup: true, ..*old(self) }),
    {
        self.marked_for_cleanup = true;
    }

    /// Whether the client is to be cleaned up later.
    pub fn is_marked_for_cleanup(&self) -> (r: bool)
        ensures
            r == self.marked_for_cleanup,
    {
        self.marked_for_cleanup
    }

    /// How many operations of the client are running.
    pub fn reservation_count(&self) -> (r: u32)
        ensures
            r == self.reservations,
    {
        self.reservations
    }
}

/// A reserved lease does not end, however long it was not renewed.
pub proof fn law_reserved_lease_does_not_end(l: LeaseState, now: Duration, lifetime: Duration)
    requires
        l.reservations > 0,
    ensures
        l.valid_at(now, lifetime),
{
}

/// After the last operation ended, the lease lasts for its whole lifetime.
pub proof fn law_release_gives_whole_lease(
    l: LeaseState,
    end: Duration,
    now: Duration,
    lifetime: Duration,
)
    requires
        l.reservations == 1,
    ensures
        l.released_at(end).reservations == 0,
        l.released_at(end).valid_at(now, lifetime) <==> passed(end, now) < lifetime.nanos,
{
}

/// A lease that has ended stays ended until it is renewed.
pub proof fn law_ended_lease_stays_ended(
    l: LeaseState,
    now: Duration,
    later: Duration,
    lifetime: Duration,
)
    requires
        !l.valid_at(now, lifetime),
        now.nanos <= later.nanos,
    ensures
        !l.valid_at(later, lifetime),
        l.left_at(later, lifetime) == 0,
{
}

/// Where there are whole seconds left of a lease, it has not ended.
pub proof fn law_time_left_means_valid(l: LeaseState, now: Duration, lifetime: Duration)
    requires
        l.left_at(now, lifetime) > 0,
    ensures
        l.valid_at(now, lifetime),
{
}

/// The right to run an operation under a lease. It is given back with `release`.
pub struct LeaseReservation {
    clientid: Clientid4,
}

impl LeaseReservation {
    /// The client whose lease is reserved.
    pub closed spec fn client(&self) -> Clientid4 {
        self.clientid
    }

    /// Reserves the lease.
    pub fn new(state: &mut LeaseState) -> (r: Self)
        ensures
            r.client() == old(state).clientid,
            *final(state) == (LeaseState {
                reservations: old(state).reservations.wrapping_add(1),
                ..*old(state)
            }),
    {
        state.reserve();
        LeaseReservation { clientid: state.clientid }
    }

    /// The client whose lease is reserved.
    pub fn clientid(&self) -> (r: Clientid4)
        ensures
            r == self.client(),
    {
        self.clientid
    }

    /// Gives the reservation back; the last one renews the lease.
    pub fn release(self, state: &mut LeaseState)
        ensures
            exists|now: Duration| *final(state) == #[trigger] old(state).released_at(now),
    {
        state.release_and_renew();
    }
}

/// The leases of all clients, on one clock.
pub struct LeaseManager {
    pub leases: HashMap<u64, LeaseState>,
    pub lease_lifetime: Duration,
    pub clock: Clock,
}

impl LeaseManager {
    /// Each lease stands under the id of its client.
    pub open spec fn wf(&self) -> bool {
        forall|c: u64| #[trigger] self.leases@.contains_key(c) ==> self.leases@[c].clientid == c
    }

    /// Only the lease of `clientid` may differ from `before`.
    pub open spec fn same_but(&self, before: &LeaseManager, clientid: Clientid4) -> bool {
        &&& self.leases@.dom() == before.leases@.dom()
        &&& forall|c: u64| #[trigger]
            self.leases@.contains_key(c) && c != clientid ==> self.leases@[c] == before.leases@[c]
        &&& self.lease_lifetime == before.lease_lifetime
        &&& self.clock == before.clock
    }

    /// No leases; new ones have the default lifetime.
    pub fn new() -> (r: Self)
        ensures
            r.wf(),
            r.leases@ == Map::<u64, LeaseState>::empty(),
            r.lease_lifetime.secs() == DEFAULT_LEASE_TIME_SECS,
    {
        Self::with_lifetime(Duration::from_secs(DEFAULT_LEASE_TIME_SECS))
    }

    /// No leases; new ones have the given lifetime.
    pub fn with_lifetime(lease_lifetime: Duration) -> (r: Self)
        ensures
            r.wf(),
            r.leases@ == Map::<u64, LeaseState>::empty(),
            r.lease_lifetime == lease_lifetime,
    {
        LeaseManager { leases: HashMap::new(), lease_lifetime, clock: Clock::start() }
    }

    /// How long a lease lasts.
    pub fn lease_lifetime(&self) -> (r: Duration)
        ensures
            r == self.lease_lifetime,
    {
        self.lease_lifetime
    }

    /// How long a lease lasts, in whole seconds.
    pub fn lease_lifetime_secs(&self) -> (r: u64)
        ensures
            r == self.lease_lifetime.secs(),
    {
        self.lease_lifetime.as_secs()
    }

    /// Gives a client a new lease at `now`, in place of any it had.
    pub fn register_at(&mut self, now: Duration, clientid: Clientid4)
        requires
            old(self).wf(),
        ensures
            final(self).wf(),
            final(self).leases@.dom() == old(self).leases@.dom().insert(clientid),
            final(self).leases@[clientid].is_new(clientid),
            final(self).leases@[clientid].last_renew == now,
            forall|c: u64| #[trigger]
                old(self).leases@.contains_key(c) && c != clientid ==> final(self).leases@[c]
                    == old(self).leases@[c],
            final(self).lease_lifetime == old(self).lease_lifetime,
            final(self).clock == old(self).clock,
    {
        let state = LeaseState::new_at(clientid, self.clock.same(), now);
        self.leases.insert(clientid, state);
    }

    /// Gives a client a new lease, in place of any it had.
    pub fn register(&mut self, clientid: Clientid4)
        requires
            old(self).wf(),
        ensures
            final(self).wf(),
            final(self).leases@.dom() == old(self).leases@.dom().insert(clientid),
            final(self).leases@[clientid].is_new(clientid),
            forall|c: u64| #[trigger]
                old(self).leases@.contains_key(c) && c != clientid ==> final(self).leases@[c]
                    == old(self).leases@[c],
            final(self).lease_lifetime == old(self).lease_lifetime,
            final(self).clock == old(self).clock,
    {
        let now = self.clock.now();
        self.register_at(now, clientid);
    }

    /// The lease of a client.
    pub fn get(&self, clientid: Clientid4) -> (r: Option<&LeaseState>)
        ensures
            r == if self.leases@.contains_key(clientid) {
                Some(&self.leases@[clientid])
            } else {
                None
            },
    {
        self.leases.get(&clientid)
    }

    /// Whether the client has a lease that has not ended.
    pub open spec fn valid_at(&self, now: Duration, clientid: Clientid4) -> bool {
        self.leases@.contains_key(clientid) && self.leases@[clientid].valid_at(
            now,
            self.lease_lifetime,
        )
    }

    /// Reserves the lease of a client for an operation at `now`; `None` where it has none or it
    /// has ended.
    pub fn reserve_at(&mut self, now: Duration, clientid: Clientid4) -> (r: Option<
        LeaseReservation,
    >)
        requires
            old(self).wf(),
        ensures
            final(self).wf(),
            r is Some <==> old(self).valid_at(now, clientid),
            r is None ==> final(self).leases@ == old(self).leases@,
            r is Some ==> final(self).leases@[clientid] == (LeaseState {
                reservations: old(self).leases@[clientid].reservations.wrapping_add(1),
                ..old(self).leases@[clientid]
            }) && r->Some_0.client() == clientid,
            final(self).same_but(old(self), clientid),
    {
        let mut state = match self.leases.remove(&clientid) {
            Some(state) => state,
            None => {
                assert(self.leases@ =~= old(self).leases@);
                return None;
            },
        };
        let r = if state.is_valid_at(now, self.lease_lifetime) {
            Some(LeaseReservation::new(&mut state))
        } else {
            None
        };
        self.leases.insert(clientid, state);
        assert(self.leases@.dom() =~= old(self).leases@.dom());
        assert(r is None ==> self.leases@ =~= old(self).leases@);
        r
    }

    /// Reserves the lease of a client for an operation; `None` where it has none or it has ended.
    pub fn reserve(&mut self, clientid: Clientid4) -> (r: Option<LeaseReservation>)
        requires
            old(self).wf(),
        ensures
            final(self).wf(),
            exists|now: Duration| (r is Some) == #[trigger] old(self).valid_at(now, clientid),
            r is None ==> final(self).leases@ == old(self).leases@,
            r is Some ==> final(self).leases@[clientid] == (LeaseState {
                reservations: old(self).leases@[clientid].reservations.wrapping_add(1),
                ..old(self).leases@[clientid]
            }) && r->Some_0.client() == clientid,
            final(self).same_but(old(self), clientid),
    {
        let now = self.clock.now();
        self.reserve_at(now, clientid)
    }

    /// Gives a reservation back at `now`.
    pub fn release_at(&mut self, now: Duration, reservation: LeaseReservation)
        requires
            old(self).wf(),
        ensures
            final(self).wf(),
            final(self).same_but(old(self), reservation.client()),
            old(self).leases@.contains_key(reservation.client())
                ==> final(self).leases@[reservation.client()] == old(
                self,
            ).leases@[reservation.client()].released_at(now),
    {
        let clientid: u64 = reservation.clientid();
        if let Some(mut state) = self.leases.remove(&clientid) {
            state.release_and_renew_at(now);
            self.leases.insert(clientid, state);
        }
        assert(self.leases@.dom() =~= old(self).leases@.dom());
    }

    /// Gives a reservation back.
    pub fn release(&mut self, reservation: LeaseReservation)
        requires
            old(self).wf(),
        ensures
            final(self).wf(),
            final(self).same_but(old(self), reservation.client()),
            old(self).leases@.contains_key(reservation.client()) ==> exists|now: Duration|
                final(self).leases@[reservation.client()] == #[trigger] old(
                    self,
                ).leases@[reservation.client()].released_at(now),
    {
        let now = self.clock.now();
        self.release_at(now, reservation);
    }

    /// Renews the lease of a client at `now`; `false` where it has none.
    pub fn renew_at(&mut self, now: Duration, clientid: Clientid4) -> (r: bool)
        requires
            old(self).wf(),
        ensures
            final(self).wf(),
            r == old(self).leases@.contains_key(clientid),
            final(self).same_but(old(self), clientid),
            r ==> final(self).leases@[clientid] == (LeaseState {
                last_renew: now,
                ..old(self).leases@[clientid]
            }),
    {
        let mut r = false;
        if let Some(mut state) = self.leases.remove(&clientid) {
            state.renew_at(now);
            self.leases.insert(clientid, state);
            r = true;
        }
        assert(self.leases@.dom() =~= old(self).leases@.dom());
        r
    }

    /// Renews the lease of a client; `false` where it has none.
    pub fn renew(&mut self, clientid: Clientid4) -> (r: bool)
        requires
            old(self).wf(),
        ensures
            final(self).wf(),
            r == old(self).leases@.contains_key(clientid),
            final(self).same_but(old(self), clientid),
            r ==> final(self).leases@[clientid] == (LeaseState {
                last_renew: final(self).leases@[clientid].last_renew,
                ..old(self).leases@[clientid]
            }),
    {
        let now = self.clock.now();
        self.renew_at(now, clientid)
    }

    /// Whether the client has a lease that has not ended at `now`.
    pub fn is_valid_at(&self, now: Duration, clientid: Clientid4) -> (r: bool)
        ensures
            r == self.valid_at(now, clientid),
    {
        match self.leases.get(&clientid) {
            Some(state) => state.is_valid_at(now, self.lease_lifetime),
            None => false,
        }
    }

    /// Whether the client has a lease that has not ended.
    pub fn is_valid(&self, clientid: Clientid4) -> (r: bool)
        ensures
            exists|now: Duration| r == #[trigger] self.valid_at(now, clientid),
            !self.leases@.contains_key(clientid) ==> !r,
            self.leases@.contains_key(clientid) && self.leases@[clientid].reservations > 0 ==> r,
    {
        let now = self.clock.now();
        self.is_valid_at(now, clientid)
    }

    /// The client has made a session; `false` where it has no lease.
    pub fn confirm(&mut self, clientid: Clientid4) -> (r: bool)
        requires
            old(self).wf(),
        ensures
            final(self).wf(),
            r == old(self).leases@.contains_key(clientid),
            final(self).same_but(old(self), clientid),
            r ==> final(self).leases@[clientid] == (LeaseState {
                confirmed: true,
                ..old(self).leases@[clientid]
            }),
    {
        let mut r = false;
        if let Some(mut state) = self.leases.remove(&clientid) {
            state.confirm();
            self.leases.insert(clientid, state);
            r = true;
        }
        assert(self.leases@.dom() =~= old(self).leases@.dom());
        r
    }

    /// Takes the lease of a client away.
    pub fn remove(&mut self, clientid: Clientid4)
        requires
            old(self).wf(),
        ensures
            final(self).wf(),
            final(self).leases@ == old(self).leases@.remove(clientid),
            final(self).lease_lifetime == old(self).lease_lifetime,
            final(self).clock == old(self).clock,
    {
        self.leases.remove(&clientid);
    }

    /// Whether the client has made a session and its lease has ended.
    pub open spec fn expired_at(&self, now: Duration, clientid: Clientid4) -> bool {
        &&& self.leases@.contains_key(clientid)
        &&& self.leases@[clientid].confirmed
        &&& !self.leases@[clientid].valid_at(now, self.lease_lifetime)
    }

    /// Whether the clients in `s` are those that have made a session and whose lease has ended.
    pub open spec fn expired_are(&self, now: Duration, s: Seq<Clientid4>) -> bool {
        forall|c: u64| #[trigger] s.contains(c) <==> self.expired_at(now, c)
    }

    /// The clients that have made a session and whose lease has ended at `now`, each once.
    pub fn collect_expired_at(&self, now: Duration) -> (r: Vec<Clientid4>)
        ensures
            r@.no_duplicates(),
            self.expired_are(now, r@),
    {
        let keys = keys64(&self.leases);
        let mut out: Vec<u64> = Vec::new();
        let mut i: usize = 0;
        while i < keys.len()
            invariant
                i <= keys.len(),
                keys@.no_duplicates(),
                forall|k: u64| #[trigger] keys@.contains(k) <==> self.leases@.contains_key(k),
                out@.no_duplicates(),
                forall|c: u64| #[trigger]
                    out@.contains(c) <==> keys@.take(i as int).contains(c) && self.expired_at(
                        now,
                        c,
                    ),
            decreases keys.len() - i,
        {
            let k: u64 = keys[i];
            assert(keys@.contains(k));
            proof {
                take_one_more(keys@, i as int);
                assert(!keys@.take(i as int).contains(k)) by {
                    if keys@.take(i as int).contains(k) {
                        let n = choose|n: int|
                            0 <= n < i && #[trigger] keys@.take(i as int)[n] == k;
                        assert(keys@[n] == keys@[i as int]);
                    }
                }
            }
            let ghost before = out@;
            let expired = match self.leases.get(&k) {
                Some(state) => state.is_confirmed() && !state.is_valid_at(now, self.lease_lifetime),
                None => false,
            };
            if expired {
                out.push(k);
                proof {
                    push_one_more(before, k);
                }
            }
            i = i + 1;
        }
        assert(keys@.take(i as int) =~= keys@);
        out
    }

    /// The clients that have made a session and whose lease has ended, each once.
    pub fn collect_expired(&self) -> (r: Vec<Clientid4>)
        ensures
            r@.no_duplicates(),
            exists|now: Duration| #[trigger] self.expired_are(now, r@),
    {
        let now = self.clock.now();
        let r = self.collect_expired_at(now);
        assert(self.expired_are(now, r@));
        r
    }

    /// All clients that have a lease, each once.
    pub fn all_clients(&self) -> (r: Vec<Clientid4>)
        ensures
            r@.no_duplicates(),
            forall|c: u64| #[trigger] r@.contains(c) <==> self.leases@.contains_key(c),
    {
        keys64(&self.leases)
    }

    /// How many clients have a lease.
    pub fn client_count(&self) -> (r: usize)
        ensures
            r == self.leases@.len(),
    {
        self.leases.len()
    }
}

} // verus!
