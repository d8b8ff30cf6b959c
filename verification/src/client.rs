//! Clients: who they are, and whether they are still there.

use crate::bytes::{bytes_eq, bytes_vec};
use crate::error::{fails_with, failure, Nfs4Result, Nfs4Status};
use crate::lease::passed;
use crate::session::SessionManager;
use crate::table::{keys64, push_one_more, take_one_more};
use crate::time::{boot_time, Clock, Duration};
use crate::types::{ClientOwner4, Clientid4, DEFAULT_LEASE_TIME};
use std::collections::HashMap;
use vstd::prelude::*;

verus! {

broadcast use vstd::std_specs::hash::group_hash_axioms;

/// The answer to the last request for a session, for when it is repeated.
#[derive(Debug)]
pub struct CreateSessionSlot {
    pub response: Vec<u8>,
    pub status: u32,
}

impl Clone for CreateSessionSlot {
    fn clone(&self) -> (r: Self)
        ensures
            r.response@ == self.response@,
            r.status == self.status,
    {
        CreateSessionSlot { response: bytes_vec(self.response.as_slice()), status: self.status }
    }
}

impl Default for CreateSessionSlot {
    fn default() -> (r: Self)
        ensures
            r.response@ == Seq::<u8>::empty(),
            r.status == 0,
    {
        CreateSessionSlot { response: Vec::new(), status: 0 }
    }
}

/// A client.
pub struct ClientState {
    pub clientid: Clientid4,
    pub owner: ClientOwner4,
    /// Whether the client has made a session.
    pub confirmed: bool,
    /// The clock that `last_renew` is read from.
    pub clock: Clock,
    pub last_renew: Duration,
    pub lease_time: Duration,
    /// The number that the client's next request for a session has to carry.
    pub create_session_sequence: u32,
    pub create_session_slot: CreateSessionSlot,
    /// Whether the client has taken back all that it had before the server started.
    pub reclaim_complete: bool,
    /// Whether the client had anything before the server started.
    pub allow_reclaim: bool,
}

impl ClientState {
    /// A client that has just made itself known.
    pub open spec fn is_new(&self, clientid: Clientid4, owner: ClientOwner4) -> bool {
        &&& self.clientid == clientid
        &&& self.owner == owner
        &&& !self.confirmed
        &&& self.lease_time.secs() == DEFAULT_LEASE_TIME
        &&& self.create_session_sequence == 1
        &&& self.create_session_slot.response@.len() == 0
        &&& self.create_session_slot.status == 0
        &&& !self.reclaim_complete
        &&& !self.allow_reclaim
    }

    /// Whether the client was not heard from for longer than its lease.
    pub open spec fn expired_at(&self, now: Duration) -> bool {
        passed(self.last_renew, now) > self.lease_time.nanos
    }

    /// A new client with a clock of its own.
    pub fn new(clientid: Clientid4, owner: ClientOwner4) -> (r: Self)
        ensures
            r.is_new(clientid, owner),
            r.last_renew.nanos == 0,
    {
        ClientState::new_at(clientid, owner, Clock::start(), Duration { nanos: 0 })
    }

    /// A new client that was heard from at `now` on the given clock.
    pub fn new_at(clientid: Clientid4, owner: ClientOwner4, clock: Clock, now: Duration) -> (r:
        Self)
        ensures
            r.is_new(clientid, owner),
            r.last_renew == now,
            r.clock == clock,
    {
        ClientState {
            clientid,
            owner,
            confirmed: false,
            clock,
            last_renew: now,
            lease_time: Duration::from_secs(DEFAULT_LEASE_TIME as u64),
            create_session_sequence: 1,
            create_session_slot: CreateSessionSlot::default(),
            reclaim_complete: false,
            allow_reclaim: false,
        }
    }

    /// Whether the client was not heard from for longer than its lease at `now`.
    pub fn is_expired_at(&self, now: Duration) -> (r: bool)
        ensures
            r == self.expired_at(now),
    {
        now.saturating_sub(self.last_renew).nanos > self.lease_time.nanos
    }

    /// Whether the client was not heard from for longer than its lease.
    pub fn is_expired(&self) -> (r: bool)
        ensures
            exists|now: Duration| r == #[trigger] self.expired_at(now),
    {
        let now = self.clock.now();
        self.is_expired_at(now)
    }

    /// The client was heard from at `now`.
    pub fn renew_at(&mut self, now: Duration)
        ensures
            *final(self) == (ClientState { last_renew: now, ..*old(self) }),
    {
        self.last_renew = now;
    }

    /// The client was heard from.
    pub fn renew(&mut self)
        ensures
            *final(self) == (ClientState { last_renew: final(self).last_renew, ..*old(self) }),
    {
        let now = self.clock.now();
        self.renew_at(now);
    }

    /// The client has made a session.
    pub fn confirm(&mut self)
        ensures
            *final(self) == (ClientState { confirmed: true, ..*old(self) }),
    {
        self.confirmed = true;
    }

    /// Whether the client has made a session.
    pub fn is_confirmed(&self) -> (r: bool)
        ensures
            r == self.confirmed,
    {
        self.confirmed
    }

    /// The number that the client's next request for a session has to carry.
    pub fn get_create_session_sequence(&self) -> (r: u32)
        ensures
            r == self.create_session_sequence,
    {
        self.create_session_sequence
    }

    /// A session was made; the next request for one has to carry the next number.
    pub fn increment_create_session_sequence(&mut self)
        ensures
            *final(self) == (ClientState {
                create_session_sequence: old(self).create_session_sequence.wrapping_add(1),
                ..*old(self)
            }),
    {
        self.create_session_sequence = self.create_session_sequence.wrapping_add(1);
    }

    /// Keeps the answer to a request for a session.
    pub fn cache_create_session_response(&mut self, response: Vec<u8>, status: u32)
        ensures
            *final(self) == (ClientState {
                create_session_slot: CreateSessionSlot { response, status },
                ..*old(self)
            }),
    {
        self.create_session_slot = CreateSessionSlot { response, status };
    }

    /// The answer to the last request for a session; empty before the first.
    pub fn get_cached_create_session_response(&self) -> (r: CreateSessionSlot)
        ensures
            r.response@ == self.create_session_slot.response@,
            r.status == self.create_session_slot.status,
    {
        self.create_session_slot.clone()
    }
}

/// All clients, on one clock.
pub struct ClientManager {
    pub clients: HashMap<u64, ClientState>,
    pub next_clientid: u64,
    pub boot_time: u64,
    pub clock: Clock,
}

/// The client id that is handed out `n`th by a server that started at `boot`: the low halves of
/// the two numbers, one above the other.
pub open spec fn client_id(boot: u64, n: u64) -> u64 {
    ((boot % 0x1_0000_0000) * 0x1_0000_0000 + n % 0x1_0000_0000) as u64
}

/// As long as the count fits its half, ids that were handed out at different times differ.
pub proof fn law_client_ids_differ(boot: u64, n: u64, m: u64)
    requires
        n != m,
        n <= 0xffff_ffff,
        m <= 0xffff_ffff,
    ensures
        client_id(boot, n) != client_id(boot, m),
{
}

impl ClientManager {
    /// Whether `c` is a client that calls itself `owner_id`.
    pub open spec fn owned_by(&self, c: Clientid4, owner_id: Seq<u8>) -> bool {
        self.clients@.contains_key(c) && self.clients@[c].owner.co_ownerid@ == owner_id
    }

    /// The client that calls itself `owner_id`.
    pub open spec fn client_of(&self, owner_id: Seq<u8>) -> Option<Clientid4> {
        if exists|c: u64| #[trigger] self.owned_by(c, owner_id) {
            Some(choose|c: u64| #[trigger] self.owned_by(c, owner_id))
        } else {
            None
        }
    }

    /// A client stands under an id that this server handed out to it.
    pub open spec fn client_ok(&self, c: Clientid4) -> bool {
        &&& self.clients@[c].clientid == c
        &&& exists|n: u64| n < self.next_clientid && c == #[trigger] client_id(self.boot_time, n)
    }

    /// Ids are those that were handed out, and no two clients call themselves the same.
    pub open spec fn wf(&self) -> bool {
        &&& forall|c: u64| #[trigger] self.clients@.contains_key(c) ==> self.client_ok(c)
        &&& forall|c: u64, d: u64, o: Seq<u8>| #[trigger]
            self.owned_by(c, o) && #[trigger] self.owned_by(d, o) ==> c == d
    }

    /// Only `clientid` among the clients may differ from `before`.
    pub open spec fn same_but(&self, before: &ClientManager, clientid: Clientid4) -> bool {
        &&& self.clients@.dom() == before.clients@.dom()
        &&& forall|c: u64| #[trigger]
            self.clients@.contains_key(c) && c != clientid ==> self.clients@[c]
                == before.clients@[c]
        &&& self.next_clientid == before.next_clientid
        &&& self.boot_time == before.boot_time
        &&& self.clock == before.clock
    }

    proof fn wf_survives(&self, before: &ClientManager, clientid: Clientid4)
        requires
            before.wf(),
            self.same_but(before, clientid),
            self.clients@.contains_key(clientid) ==> self.clients@[clientid].clientid == clientid
                && self.clients@[clientid].owner == before.clients@[clientid].owner,
        ensures
            self.wf(),
    {
        assert forall|c: u64| #[trigger] self.clients@.contains_key(c) implies self.client_ok(
            c,
        ) by {
            assert(before.client_ok(c));
        }
        assert forall|c: u64, d: u64, o: Seq<u8>| #[trigger]
            self.owned_by(c, o) && #[trigger] self.owned_by(d, o) implies c == d by {
            assert(before.owned_by(c, o) && before.owned_by(d, o));
        }
    }

    /// No clients.
    pub fn new() -> (r: Self)
        ensures
            r.wf(),
            r.clients@ == Map::<u64, ClientState>::empty(),
            r.next_clientid == 1,
    {
        ClientManager {
            clients: HashMap::new(),
            next_clientid: 1,
            boot_time: boot_time(),
            clock: Clock::start(),
        }
    }

    fn generate_clientid(&mut self) -> (r: Clientid4)
        requires
            old(self).next_clientid <= 0xffff_ffff,
        ensures
            r == client_id(old(self).boot_time, old(self).next_clientid),
            *final(self) == (ClientManager {
                next_clientid: (old(self).next_clientid + 1) as u64,
                ..*old(self)
            }),
    {
        let n: u64 = self.next_clientid;
        self.next_clientid = n + 1;
        (self.boot_time % 0x1_0000_0000) * 0x1_0000_0000 + n % 0x1_0000_0000
    }

    /// What a client that makes itself known at `now` is told, and what is kept of it.
    pub open spec fn has_exchanged(
        &self,
        before: &ClientManager,
        now: Duration,
        owner: ClientOwner4,
        r: Nfs4Result<(Clientid4, u32, u32)>,
    ) -> bool {
        let known = before.client_of(owner.co_ownerid@);
        &&& self.clock == before.clock
        &&& self.boot_time == before.boot_time
        &&& if known is Some && before.clients@[known->Some_0].owner.co_verifier@
            == owner.co_verifier@ {
            // The client is known and has not started anew.
            let c = known->Some_0;
            let state = before.clients@[c];
            &&& r is Ok
            &&& r->Ok_0 == (
                c,
                state.create_session_sequence,
                if state.confirmed {
                    1u32
                } else {
                    0u32
                },
            )
            &&& self.same_but(before, c)
            &&& self.clients@[c] == ClientState { last_renew: now, ..state }
        } else if before.next_clientid > 0xffff_ffff {
            // The numbers that ids are made of are used up.
            fails_with(r, Nfs4Status::Serverfault) && *self == *before
        } else {
            // The client is new, or has started anew and is forgotten first.
            let id = client_id(before.boot_time, before.next_clientid);
            let kept = if known is Some {
                before.clients@.remove(known->Some_0)
            } else {
                before.clients@
            };
            &&& r is Ok
            &&& r->Ok_0 == (id, 1u32, 0u32)
            &&& !before.clients@.contains_key(id)
            &&& self.clients@.dom() == kept.dom().insert(id)
            &&& self.clients@.remove(id) == kept
            &&& self.clients@[id].is_new(id, owner)
            &&& self.clients@[id].last_renew == now
            &&& self.clients@[id].clock == before.clock
            &&& self.next_clientid == before.next_clientid + 1
        }
    }

    /// A client makes itself known at `now`. It gets its id, the number that its request for a
    /// session has to carry, and a flag that says whether it has made a session before.
    pub fn exchange_id_at(&mut self, now: Duration, owner: ClientOwner4) -> (r: Nfs4Result<
        (Clientid4, u32, u32),
    >)
        requires
            old(self).wf(),
        ensures
            final(self).wf(),
            final(self).has_exchanged(old(self), now, owner, r),
    {
        let known = self.find_client_by_owner(owner.co_ownerid.as_slice());
        let anew = match known {
            Some(c) => match self.clients.get(&c) {
                Some(state) => !bytes_eq(
                    vstd::array::array_as_slice(&state.owner.co_verifier),
                    vstd::array::array_as_slice(&owner.co_verifier),
                ),
                None => true,
            },
            None => true,
        };
        if anew && self.next_clientid > 0xffff_ffff {
            return failure(Nfs4Status::Serverfault);
        }
        if let Some(c) = known {
            if let Some(mut state) = self.clients.remove(&c) {
                if bytes_eq(
                    vstd::array::array_as_slice(&state.owner.co_verifier),
                    vstd::array::array_as_slice(&owner.co_verifier),
                ) {
                    state.renew_at(now);
                    let flags: u32 = if state.is_confirmed() {
                        1
                    } else {
                        0
                    };
                    let seqid: u32 = state.get_create_session_sequence();
                    self.clients.insert(c, state);
                    proof {
                        assert(self.clients@.dom() =~= old(self).clients@.dom());
                        assert(old(self).client_ok(c));
                        self.wf_survives(old(self), c);
                    }
                    return Ok((c, seqid, flags));
                }
            }
        }
        let ghost kept = self.clients@;
        let clientid: u64 = self.generate_clientid();
        proof {
            let n = old(self).next_clientid;
            if old(self).clients@.contains_key(clientid) {
                assert(old(self).client_ok(clientid));
                let m = choose|m: u64|
                    m < old(self).next_clientid && clientid == #[trigger] client_id(
                        old(self).boot_time,
                        m,
                    );
                law_client_ids_differ(old(self).boot_time, n, m);
            }
        }
        let ghost o = owner.co_ownerid@;
        let state = ClientState::new_at(clientid, owner, self.clock.same(), now);
        let seqid: u32 = state.get_create_session_sequence();
        self.clients.insert(clientid, state);
        proof {
            assert(self.clients@.remove(clientid) =~= kept);
            assert forall|c: u64| #[trigger] self.clients@.contains_key(c) implies self.client_ok(
                c,
            ) by {
                if c == clientid {
                    assert(c == client_id(self.boot_time, old(self).next_clientid));
                } else {
                    assert(old(self).client_ok(c));
                    let m = choose|m: u64|
                        m < old(self).next_clientid && c == #[trigger] client_id(
                            old(self).boot_time,
                            m,
                        );
                    assert(c == client_id(self.boot_time, m));
                }
            }
            assert forall|c: u64, d: u64, p: Seq<u8>| #[trigger]
                self.owned_by(c, p) && #[trigger] self.owned_by(d, p) implies c == d by {
                if c != clientid {
                    assert(old(self).owned_by(c, p));
                }
                if d != clientid {
                    assert(old(self).owned_by(d, p));
                }
                if c == clientid && d != clientid {
                    assert(old(self).owned_by(d, o));
                }
                if d == clientid && c != clientid {
                    assert(old(self).owned_by(c, o));
                }
            }
        }
        Ok((clientid, seqid, 0))
    }

    /// A client makes itself known.
    pub fn exchange_id(&mut self, owner: ClientOwner4) -> (r: Nfs4Result<(Clientid4, u32, u32)>)
        requires
            old(self).wf(),
        ensures
            final(self).wf(),
            exists|now: Duration| #[trigger]
                final(self).has_exchanged(old(self), now, owner, r),
    {
        let now = self.clock.now();
        self.exchange_id_at(now, owner)
    }

    /// The client with the given id.
    pub fn get_client(&self, clientid: Clientid4) -> (r: Option<&ClientState>)
        ensures
            r == if self.clients@.contains_key(clientid) {
                Some(&self.clients@[clientid])
            } else {
                None
            },
    {
        self.clients.get(&clientid)
    }

    /// The client that calls itself `owner_id`.
    pub fn find_client_by_owner(&self, owner_id: &[u8]) -> (r: Option<Clientid4>)
        requires
            self.wf(),
        ensures
            r == self.client_of(owner_id@),
            r is Some ==> self.owned_by(r->Some_0, owner_id@),
            r is None ==> forall|c: u64| !#[trigger] self.owned_by(c, owner_id@),
    {
        let keys = keys64(&self.clients);
        let mut i: usize = 0;
        while i < keys.len()
            invariant
                self.wf(),
                i <= keys.len(),
                forall|k: u64| #[trigger] keys@.contains(k) <==> self.clients@.contains_key(k),
                forall|j: int| 0 <= j < i ==> !self.owned_by(#[trigger] keys@[j], owner_id@),
            decreases keys.len() - i,
        {
            let k: u64 = keys[i];
            assert(keys@.contains(k));
            if let Some(state) = self.clients.get(&k) {
                if bytes_eq(state.owner.co_ownerid.as_slice(), owner_id) {
                    assert(self.owned_by(k, owner_id@));
                    return Some(k);
                }
            }
            i = i + 1;
        }
        assert forall|c: u64| !#[trigger] self.owned_by(c, owner_id@) by {
            if self.owned_by(c, owner_id@) {
                assert(keys@.contains(c));
                let j = choose|j: int| 0 <= j < keys@.len() && #[trigger] keys@[j] == c;
                assert(!self.owned_by(keys@[j], owner_id@));
            }
        }
        None
    }

    /// Some client that has made a session, where there is one.
    pub fn get_any_confirmed_client(&self) -> (r: Option<Clientid4>)
        ensures
            match r {
                Some(c) => self.clients@.contains_key(c) && self.clients@[c].confirmed,
                None => forall|c: u64| #[trigger]
                    self.clients@.contains_key(c) ==> !self.clients@[c].confirmed,
            },
    {
        let keys = keys64(&self.clients);
        let mut i: usize = 0;
        while i < keys.len()
            invariant
                i <= keys.len(),
                forall|k: u64| #[trigger] keys@.contains(k) <==> self.clients@.contains_key(k),
                forall|j: int| 0 <= j < i ==> !self.clients@[#[trigger] keys@[j]].confirmed,
            decreases keys.len() - i,
        {
            let k: u64 = keys[i];
            assert(keys@.contains(k));
            if let Some(state) = self.clients.get(&k) {
                if state.is_confirmed() {
                    return Some(k);
                }
            }
            i = i + 1;
        }
        assert forall|c: u64| #[trigger] self.clients@.contains_key(c) implies !self.clients@[
            c
        ].confirmed by {
            assert(keys@.contains(c));
            let j = choose|j: int| 0 <= j < keys@.len() && #[trigger] keys@[j] == c;
            assert(!self.clients@[keys@[j]].confirmed);
        }
        None
    }

    /// `self` is `before` with the client replaced, where there is such a client.
    pub open spec fn has_replaced(
        &self,
        before: &ClientManager,
        clientid: Clientid4,
        state: ClientState,
        r: Nfs4Result<()>,
    ) -> bool {
        &&& self.same_but(before, clientid)
        &&& if before.clients@.contains_key(clientid) {
            r is Ok && self.clients@[clientid] == state
        } else {
            fails_with(r, Nfs4Status::StaleClientid)
        }
    }

    /// The client has made a session at `now`, which also counts as hearing from it.
    pub fn confirm_client_at(&mut self, now: Duration, clientid: Clientid4) -> (r: Nfs4Result<()>)
        requires
            old(self).wf(),
        ensures
            final(self).wf(),
            final(self).has_replaced(
                old(self),
                clientid,
                (ClientState {
                    confirmed: true,
                    last_renew: now,
                    ..old(self).clients@[clientid]
                }),
                r,
            ),
    {
        let r = match self.clients.remove(&clientid) {
            Some(mut state) => {
                state.confirm();
                state.renew_at(now);
                self.clients.insert(clientid, state);
                Ok(())
            },
            None => failure(Nfs4Status::StaleClientid),
        };
        proof {
            assert(self.clients@.dom() =~= old(self).clients@.dom());
            if old(self).clients@.contains_key(clientid) {
                assert(old(self).client_ok(clientid));
            }
            self.wf_survives(old(self), clientid);
        }
        r
    }

    /// The client has made a session, which also counts as hearing from it.
    pub fn confirm_client(&mut self, clientid: Clientid4) -> (r: Nfs4Result<()>)
        requires
            old(self).wf(),
        ensures
            final(self).wf(),
            final(self).has_replaced(
                old(self),
                clientid,
                (ClientState {
                    confirmed: true,
                    last_renew: final(self).clients@[clientid].last_renew,
                    ..old(self).clients@[clientid]
                }),
                r,
            ),
    {
        let now = self.clock.now();
        self.confirm_client_at(now, clientid)
    }

    /// The client was heard from at `now`.
    pub fn renew_lease_at(&mut self, now: Duration, clientid: Clientid4) -> (r: Nfs4Result<()>)
        requires
            old(self).wf(),
        ensures
            final(self).wf(),
            final(self).has_replaced(
                old(self),
                clientid,
                (ClientState { last_renew: now, ..old(self).clients@[clientid] }),
                r,
            ),
    {
        let r = match self.clients.remove(&clientid) {
            Some(mut state) => {
                state.renew_at(now);
                self.clients.insert(clientid, state);
                Ok(())
            },
            None => failure(Nfs4Status::StaleClientid),
        };
        proof {
            assert(self.clients@.dom() =~= old(self).clients@.dom());
            if old(self).clients@.contains_key(clientid) {
                assert(old(self).client_ok(clientid));
            }
            self.wf_survives(old(self), clientid);
        }
        r
    }

    /// The client was heard from.
    pub fn renew_lease(&mut self, clientid: Clientid4) -> (r: Nfs4Result<()>)
        requires
            old(self).wf(),
        ensures
            final(self).wf(),
            final(self).has_replaced(
                old(self),
                clientid,
                (ClientState {
                    last_renew: final(self).clients@[clientid].last_renew,
                    ..old(self).clients@[clientid]
                }),
                r,
            ),
    {
        let now = self.clock.now();
        self.renew_lease_at(now, clientid)
    }

    /// A session of the client was made: the next request for one has to carry the next number,
    /// and `response` answers this one when it is repeated.
    pub fn session_created(&mut self, clientid: Clientid4, response: Vec<u8>, status: u32) -> (r:
        Nfs4Result<()>)
        requires
            old(self).wf(),
        ensures
            final(self).wf(),
            final(self).has_replaced(
                old(self),
                clientid,
                (ClientState {
                    create_session_sequence: old(
                        self,
                    ).clients@[clientid].create_session_sequence.wrapping_add(1),
                    create_session_slot: CreateSessionSlot { response, status },
                    ..old(self).clients@[clientid]
                }),
                r,
            ),
    {
        let r = match self.clients.remove(&clientid) {
            Some(mut state) => {
                state.increment_create_session_sequence();
                state.cache_create_session_response(response, status);
                self.clients.insert(clientid, state);
                Ok(())
            },
            None => failure(Nfs4Status::StaleClientid),
        };
        proof {
            assert(self.clients@.dom() =~= old(self).clients@.dom());
            if old(self).clients@.contains_key(clientid) {
                assert(old(self).client_ok(clientid));
            }
            self.wf_survives(old(self), clientid);
        }
        r
    }

    /// The client has taken back all that it had before the server started.
    pub fn reclaim_completed(&mut self, clientid: Clientid4) -> (r: Nfs4Result<()>)
        requires
            old(self).wf(),
        ensures
            final(self).wf(),
            final(self).has_replaced(
                old(self),
                clientid,
                (ClientState { reclaim_complete: true, ..old(self).clients@[clientid] }),
                r,
            ),
    {
        let r = match self.clients.remove(&clientid) {
            Some(mut state) => {
                state.reclaim_complete = true;
                self.clients.insert(clientid, state);
                Ok(())
            },
            None => failure(Nfs4Status::StaleClientid),
        };
        proof {
            assert(self.clients@.dom() =~= old(self).clients@.dom());
            if old(self).clients@.contains_key(clientid) {
                assert(old(self).client_ok(clientid));
            }
            self.wf_survives(old(self), clientid);
        }
        r
    }

    /// Sets whether a client had anything before the server started.
    pub fn set_allow_reclaim(&mut self, clientid: Clientid4, allow: bool) -> (r: Nfs4Result<()>)
        requires
            old(self).wf(),
        ensures
            final(self).wf(),
            final(self).has_replaced(
                old(self),
                clientid,
                (ClientState { allow_reclaim: allow, ..old(self).clients@[clientid] }),
                r,
            ),
    {
        let r = match self.clients.remove(&clientid) {
            Some(mut state) => {
                state.allow_reclaim = allow;
                self.clients.insert(clientid, state);
                Ok(())
            },
            None => failure(Nfs4Status::StaleClientid),
        };
        proof {
            assert(self.clients@.dom() =~= old(self).clients@.dom());
            if old(self).clients@.contains_key(clientid) {
                assert(old(self).client_ok(clientid));
            }
            self.wf_survives(old(self), clientid);
        }
        r
    }

    /// Whether a client can be forgotten on its own request: it has to be known, and must not
    /// have a session.
    pub fn ensure_destroyable(&self, clientid: Clientid4, sessions: &SessionManager) -> (r:
        Nfs4Result<()>)
        ensures
            if !self.clients@.contains_key(clientid) {
                fails_with(r, Nfs4Status::StaleClientid)
            } else if sessions.sessions_of(clientid).len() > 0 {
                fails_with(r, Nfs4Status::ClientidBusy)
            } else {
                r is Ok
            },
    {
        if !self.clients.contains_key(&clientid) {
            return failure(Nfs4Status::StaleClientid);
        }
        if sessions.has_client_sessions(clientid) {
            return failure(Nfs4Status::ClientidBusy);
        }
        Ok(())
    }

    /// Forgets a client.
    pub fn purge_client(&mut self, clientid: Clientid4)
        requires
            old(self).wf(),
        ensures
            final(self).wf(),
            final(self).clients@ == old(self).clients@.remove(clientid),
            final(self).next_clientid == old(self).next_clientid,
            final(self).boot_time == old(self).boot_time,
            final(self).clock == old(self).clock,
    {
        self.clients.remove(&clientid);
        proof {
            assert forall|c: u64| #[trigger] self.clients@.contains_key(c) implies self.client_ok(
                c,
            ) by {
                assert(old(self).client_ok(c));
                let m = choose|m: u64|
                    m < old(self).next_clientid && c == #[trigger] client_id(
                        old(self).boot_time,
                        m,
                    );
                assert(c == client_id(self.boot_time, m));
            }
            assert forall|c: u64, d: u64, o: Seq<u8>| #[trigger]
                self.owned_by(c, o) && #[trigger] self.owned_by(d, o) implies c == d by {
                assert(old(self).owned_by(c, o) && old(self).owned_by(d, o));
            }
        }
    }

    /// `self` is `before` without the clients that were not heard from for longer than their
    /// lease at `now`, which are `r`, each once.
    pub open spec fn has_cleaned_up(
        &self,
        before: &ClientManager,
        now: Duration,
        r: Seq<Clientid4>,
    ) -> bool {
        &&& self.next_clientid == before.next_clientid
        &&& self.boot_time == before.boot_time
        &&& self.clock == before.clock
        &&& r.no_duplicates()
        &&& forall|c: u64| #[trigger]
            r.contains(c) <==> before.clients@.contains_key(c) && before.clients@[c].expired_at(now)
        &&& forall|c: u64| #[trigger]
            self.clients@.contains_key(c) <==> before.clients@.contains_key(c) && !r.contains(c)
        &&& forall|c: u64| #[trigger]
            self.clients@.contains_key(c) ==> self.clients@[c] == before.clients@[c]
    }

    /// Forgets the clients that were not heard from for longer than their lease at `now`.
    pub fn cleanup_expired_at(&mut self, now: Duration) -> (r: Vec<Clientid4>)
        requires
            old(self).wf(),
        ensures
            final(self).wf(),
            final(self).has_cleaned_up(old(self), now, r@),
    {
        let keys = keys64(&self.clients);
        let mut out: Vec<u64> = Vec::new();
        let mut i: usize = 0;
        while i < keys.len()
            invariant
                self.wf(),
                i <= keys.len(),
                keys@.no_duplicates(),
                forall|k: u64| #[trigger] keys@.contains(k) <==> old(self).clients@.contains_key(k),
                self.next_clientid == old(self).next_clientid,
                self.boot_time == old(self).boot_time,
                self.clock == old(self).clock,
                out@.no_duplicates(),
                forall|c: u64| #[trigger]
                    out@.contains(c) <==> keys@.take(i as int).contains(c) && old(
                        self,
                    ).clients@[c].expired_at(now),
                forall|c: u64| #[trigger]
                    self.clients@.contains_key(c) <==> old(self).clients@.contains_key(c)
                        && !out@.contains(c),
                forall|c: u64| #[trigger]
                    self.clients@.contains_key(c) ==> self.clients@[c] == old(self).clients@[c],
            decreases keys.len() - i,
        {
            let k: u64 = keys[i];
            assert(keys@.contains(k));
            proof {
                take_one_more(keys@, i as int);
                assert(!keys@.take(i as int).contains(k)) by {
                    if keys@.take(i as int).contains(k) {
                        let n = choose|n: int|
                            0 <= n < i && #[trigger] keys@.take(i as int)[n] == k;
                        assert(keys@[n] == keys@[i as int]);
                    }
                }
            }
            let ghost before = out@;
            let expired = match self.clients.get(&k) {
                Some(state) => state.is_expired_at(now),
                None => false,
            };
            if expired {
                self.purge_client(k);
                out.push(k);
                proof {
                    push_one_more(before, k);
                }
            }
            i = i + 1;
        }
        assert(keys@.take(i as int) =~= keys@);
        out
    }

    /// Forgets the clients that were not heard from for longer than their lease.
    pub fn cleanup_expired(&mut self) -> (r: Vec<Clientid4>)
        requires
            old(self).wf(),
        ensures
            final(self).wf(),
            exists|now: Duration| #[trigger] final(self).has_cleaned_up(old(self), now, r@),
    {
        let now = self.clock.now();
        self.cleanup_expired_at(now)
    }

    /// All clients, each once.
    pub fn export_clients(&self) -> (r: Vec<(Clientid4, &ClientState)>)
        ensures
            r@.len() == self.clients@.dom().len(),
            forall|i: int|
                0 <= i < r@.len() ==> self.clients@.contains_key(#[trigger] r@[i].0) && *r@[i].1
                    == self.clients@[r@[i].0],
            forall|i: int, j: int|
                0 <= i < j < r@.len() ==> (#[trigger] r@[i]).0 != (#[trigger] r@[j]).0,
    {
        let keys = keys64(&self.clients);
        let mut out: Vec<(u64, &ClientState)> = Vec::new();
        let mut i: usize = 0;
        while i < keys.len()
            invariant
                i <= keys.len(),
                keys@.no_duplicates(),
                forall|k: u64| #[trigger] keys@.contains(k) <==> self.clients@.contains_key(k),
                out@.len() == i,
                forall|j: int|
                    0 <= j < i ==> (#[trigger] out@[j]).0 == keys@[j] && *out@[j].1
                        == self.clients@[keys@[j]] && self.clients@.contains_key(keys@[j]),
            decreases keys.len() - i,
        {
            let k: u64 = keys[i];
            assert(keys@.contains(k));
            if let Some(state) = self.clients.get(&k) {
                out.push((k, state));
            }
            i = i + 1;
        }
        out
    }
}

/// A client that makes itself known again without having started anew keeps its id, also where
/// there are no numbers left for new ones.
pub proof fn law_client_keeps_its_id(
    before: ClientManager,
    mid: ClientManager,
    after: ClientManager,
    now: Duration,
    later: Duration,
    owner: ClientOwner4,
    first: Nfs4Result<(Clientid4, u32, u32)>,
    second: Nfs4Result<(Clientid4, u32, u32)>,
)
    requires
        before.wf(),
        mid.wf(),
        mid.has_exchanged(&before, now, owner, first),
        first is Ok,
        after.has_exchanged(&mid, later, owner, second),
    ensures
        second is Ok,
        second->Ok_0.0 == first->Ok_0.0,
{
    assert(mid.owned_by(first->Ok_0.0, owner.co_ownerid@));
}

/// A known client that has not started anew is told its id, the number that its next request for a
/// session has to carry, and whether it is confirmed. Only its lease is renewed, and no client
/// comes or goes.
pub proof fn law_known_client_is_told_what_it_was(
    before: ClientManager,
    after: ClientManager,
    now: Duration,
    clientid: Clientid4,
    owner: ClientOwner4,
    r: Nfs4Result<(Clientid4, u32, u32)>,
)
    requires
        before.wf(),
        before.owned_by(clientid, owner.co_ownerid@),
        before.clients@[clientid].owner.co_verifier@ == owner.co_verifier@,
        after.has_exchanged(&before, now, owner, r),
    ensures
        r is Ok,
        r->Ok_0.0 == clientid,
        r->Ok_0.1 == before.clients@[clientid].create_session_sequence,
        r->Ok_0.2 == if before.clients@[clientid].confirmed {
            1u32
        } else {
            0u32
        },
        after.clients@ == before.clients@.insert(
            clientid,
            (ClientState { last_renew: now, ..before.clients@[clientid] }),
        ),
{
    assert(after.clients@ =~= before.clients@.insert(
        clientid,
        (ClientState { last_renew: now, ..before.clients@[clientid] }),
    ));
}

/// A client that has started anew gets an id that no client had, and what went by its old id is
/// forgotten.
pub proof fn law_client_that_starts_anew_is_another(
    before: ClientManager,
    after: ClientManager,
    now: Duration,
    owner: ClientOwner4,
    r: Nfs4Result<(Clientid4, u32, u32)>,
)
    requires
        before.wf(),
        after.has_exchanged(&before, now, owner, r),
        before.client_of(owner.co_ownerid@) is Some,
        before.clients@[before.client_of(owner.co_ownerid@)->Some_0].owner.co_verifier@
            != owner.co_verifier@,
        before.next_clientid <= 0xffff_ffff,
    ensures
        r is Ok,
        !before.clients@.contains_key(r->Ok_0.0),
        !after.clients@.contains_key(before.client_of(owner.co_ownerid@)->Some_0),
{
}

} // verus!
