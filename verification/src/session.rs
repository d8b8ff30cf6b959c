//! Sessions: the slots through which a client's requests are run exactly once.
//!
//! Each slot remembers the sequence number of the last request that was run through it and, if
//! the request asked for it, the reply. A request with the next number is run; one with the same
//! number is a repetition and is answered from the slot; any other is refused.

use crate::bytes::{
    bytes_vec, key16, key16_injective, key_of16, le64, le64_at, le64_round_trip, put_le64, to_array,
};
use crate::error::{fails_with, failure, Nfs4Result, Nfs4Status};
use crate::table::{take_one_more, take_out, without, without_keeps};
use crate::time::{boot_time, Clock};
use crate::types::{Clientid4, Sessionid4};
use std::collections::HashMap;
use vstd::prelude::*;

verus! {

broadcast use vstd::std_specs::hash::group_hash_axioms;

/// The slots of a session where nothing else is asked for.
pub const DEFAULT_SLOT_COUNT: u32 = 64;

/// The most slots of a session.
pub const MAX_SLOT_COUNT: u32 = 1024;

// ---------------------------------------------------------------------------
// Slots
// ---------------------------------------------------------------------------

/// A reply that is kept for when the request is repeated.
#[derive(Debug)]
pub struct CachedReply {
    /// The number of the request.
    pub sequence: u32,
    pub reply: Vec<u8>,
}

impl Clone for CachedReply {
    fn clone(&self) -> (r: Self)
        ensures
            r.sequence == self.sequence,
            r.reply@ == self.reply@,
    {
        CachedReply { sequence: self.sequence, reply: bytes_vec(self.reply.as_slice()) }
    }
}

/// What a slot is doing.
#[derive(Clone, Copy, PartialEq, Eq, Structural, Debug)]
pub enum SlotState {
    /// Nothing.
    Free,
    /// Running a request.
    InUse,
    /// Nothing; the reply to the last request is kept.
    Cached,
}

/// A slot, through which one request runs at a time.
#[derive(Debug)]
pub struct Slot {
    pub slot_id: u32,
    /// The number of the last request that was let in.
    pub sequence: u32,
    pub state: SlotState,
    pub cached_reply: Option<CachedReply>,
}

/// What becomes of a request that comes in through a slot.
pub enum Admission {
    /// It is new and is run.
    Run,
    /// It was run before and is answered with these bytes.
    Replay(Seq<u8>),
    /// It is turned down.
    Refuse(Nfs4Status),
}

impl Slot {
    /// A slot that no request has come through.
    pub open spec fn fresh(slot_id: u32) -> Slot {
        Slot { slot_id, sequence: 0, state: SlotState::Free, cached_reply: None }
    }

    /// What becomes of a request with the number `seq`.
    pub open spec fn admission(self, seq: u32) -> Admission {
        if seq == self.sequence.wrapping_add(1) {
            if self.state == SlotState::InUse {
                Admission::Refuse(Nfs4Status::SeqMisordered)
            } else {
                Admission::Run
            }
        } else if seq == self.sequence {
            match self.cached_reply {
                Some(c) if c.sequence == seq => Admission::Replay(c.reply@),
                _ => Admission::Refuse(Nfs4Status::RetryUncachedRep),
            }
        } else {
            Admission::Refuse(Nfs4Status::SeqMisordered)
        }
    }

    /// The slot after a request with the number `seq` came in.
    pub open spec fn admitting(self, seq: u32) -> Slot {
        if self.admission(seq) is Run {
            Slot { sequence: seq, state: SlotState::InUse, ..self }
        } else {
            self
        }
    }

    /// The slot after the request in it was answered with `reply`, which is kept.
    pub open spec fn answering(self, reply: Vec<u8>) -> Slot {
        Slot {
            state: SlotState::Cached,
            cached_reply: Some(CachedReply { sequence: self.sequence, reply }),
            ..self
        }
    }

    /// The slot after the request in it was answered and the reply not kept.
    pub open spec fn dismissing(self) -> Slot {
        Slot { state: SlotState::Free, ..self }
    }

    /// A slot that no request has come through.
    pub fn new(slot_id: u32) -> (r: Self)
        ensures
            r == Slot::fresh(slot_id),
    {
        Slot { slot_id, sequence: 0, state: SlotState::Free, cached_reply: None }
    }

    /// The number of the last request that was let in.
    pub fn sequence(&self) -> (r: u32)
        ensures
            r == self.sequence,
    {
        self.sequence
    }

    /// Lets a request in. `Ok(None)` says that it is to be run, `Ok(Some(..))` that it was run
    /// before and how it was answered.
    pub fn acquire(&mut self, seq: u32) -> (r: Result<Option<CachedReply>, Nfs4Status>)
        ensures
            *final(self) == old(self).admitting(seq),
            match old(self).admission(seq) {
                Admission::Run => r is Ok && r->Ok_0 is None,
                Admission::Replay(b) => r is Ok && r->Ok_0 is Some && r->Ok_0->Some_0.sequence
                    == seq && r->Ok_0->Some_0.reply@ == b,
                Admission::Refuse(st) => r is Err && r->Err_0 == st,
            },
    {
        let expected: u32 = self.sequence.wrapping_add(1);
        if seq == expected {
            if self.state == SlotState::InUse {
                return Err(Nfs4Status::SeqMisordered);
            }
            self.state = SlotState::InUse;
            self.sequence = seq;
            Ok(None)
        } else if seq == self.sequence {
            match &self.cached_reply {
                Some(c) => if c.sequence == seq {
                    Ok(Some(c.clone()))
                } else {
                    Err(Nfs4Status::RetryUncachedRep)
                },
                None => Err(Nfs4Status::RetryUncachedRep),
            }
        } else {
            Err(Nfs4Status::SeqMisordered)
        }
    }

    /// The reply that is kept, whichever request it answered.
    pub fn get_cached_reply(&self) -> (r: Option<CachedReply>)
        ensures
            r is Some <==> self.cached_reply is Some,
            r is Some ==> r->Some_0.sequence == self.cached_reply->Some_0.sequence
                && r->Some_0.reply@ == self.cached_reply->Some_0.reply@,
    {
        match &self.cached_reply {
            Some(c) => Some(c.clone()),
            None => None,
        }
    }

    /// The request in the slot was answered; the reply is kept.
    pub fn release(&mut self, reply: Vec<u8>)
        ensures
            *final(self) == old(self).answering(reply),
    {
        self.cached_reply = Some(CachedReply { sequence: self.sequence, reply });
        self.state = SlotState::Cached;
    }

    /// The request in the slot was answered; the reply is not kept.
    pub fn release_no_cache(&mut self)
        ensures
            *final(self) == old(self).dismissing(),
    {
        self.state = SlotState::Free;
    }
}

/// A request is run at most once: once it was let in, the same number is not run again, neither
/// while the request is being run nor after it was answered, whether or not the reply was kept.
pub proof fn law_request_runs_once(slot: Slot, seq: u32, reply: Vec<u8>)
    requires
        slot.admission(seq) is Run,
    ensures
        !(slot.admitting(seq).admission(seq) is Run),
        !(slot.admitting(seq).answering(reply).admission(seq) is Run),
        !(slot.admitting(seq).dismissing().admission(seq) is Run),
{
}

/// A repeated request gets the reply that was kept, and the slot stays as it is.
pub proof fn law_repetition_gets_kept_reply(slot: Slot, seq: u32, reply: Vec<u8>)
    requires
        slot.admission(seq) is Run,
    ensures
        slot.admitting(seq).answering(reply).admission(seq) == Admission::Replay(reply@),
        slot.admitting(seq).answering(reply).admitting(seq) == slot.admitting(seq).answering(reply),
{
}

/// After a request was answered, the request with the next number is run.
pub proof fn law_next_request_runs(slot: Slot, seq: u32, reply: Vec<u8>)
    requires
        slot.admission(seq) is Run,
    ensures
        slot.admitting(seq).answering(reply).admission(seq.wrapping_add(1)) is Run,
        slot.admitting(seq).dismissing().admission(seq.wrapping_add(1)) is Run,
{
}

/// A slot that is running a request lets no other in.
pub proof fn law_busy_slot_runs_nothing(slot: Slot, seq: u32)
    requires
        slot.state == SlotState::InUse,
    ensures
        !(slot.admission(seq) is Run),
        slot.admitting(seq) == slot,
{
}

// ---------------------------------------------------------------------------
// Sessions
// ---------------------------------------------------------------------------

/// A session of a client.
pub struct Session {
    pub sessionid: Sessionid4,
    pub clientid: Clientid4,
    pub slots: Vec<Slot>,
    /// How many connections carry the session.
    pub connections: u32,
    /// Runs since the session was made.
    pub created: Clock,
    pub flags: u32,
    /// The program that the client takes callbacks under.
    pub cb_program: u32,
    pub backchannel_up: bool,
}

/// How many slots a session gets where `slot_count` are asked for.
pub open spec fn granted_slots(slot_count: u32) -> u32 {
    if slot_count <= MAX_SLOT_COUNT {
        slot_count
    } else {
        MAX_SLOT_COUNT
    }
}

/// How many slots a session gets where `slot_count` are asked for.
pub fn grant_slots(slot_count: u32) -> (r: u32)
    ensures
        r == granted_slots(slot_count),
{
    if slot_count <= MAX_SLOT_COUNT {
        slot_count
    } else {
        MAX_SLOT_COUNT
    }
}

impl Session {
    /// A session as it is made: one connection, and slots that no request has come through.
    pub open spec fn is_new(&self, clientid: Clientid4, slot_count: u32, flags: u32) -> bool {
        &&& self.clientid == clientid
        &&& self.slots@.len() == granted_slots(slot_count)
        &&& forall|i: int|
            0 <= i < self.slots@.len() ==> #[trigger] self.slots@[i] == Slot::fresh(i as u32)
        &&& self.connections == 1
        &&& self.flags == flags
        &&& self.cb_program == 0
        &&& !self.backchannel_up
    }

    /// `self` is `before` with the slot at `i` replaced.
    pub open spec fn is_with_slot(&self, before: Session, i: int, slot: Slot) -> bool {
        &&& self.sessionid == before.sessionid
        &&& self.clientid == before.clientid
        &&& self.slots@ == before.slots@.update(i, slot)
        &&& self.connections == before.connections
        &&& self.created == before.created
        &&& self.flags == before.flags
        &&& self.cb_program == before.cb_program
        &&& self.backchannel_up == before.backchannel_up
    }

    /// A new session with at most `MAX_SLOT_COUNT` slots.
    pub fn new(sessionid: Sessionid4, clientid: Clientid4, slot_count: u32) -> (r: Self)
        ensures
            r.sessionid == sessionid,
            r.is_new(clientid, slot_count, 0),
    {
        let count: u32 = grant_slots(slot_count);
        let mut slots: Vec<Slot> = Vec::new();
        let mut i: u32 = 0;
        while i < count
            invariant
                i <= count,
                slots@.len() == i,
                forall|j: int| 0 <= j < i ==> #[trigger] slots@[j] == Slot::fresh(j as u32),
            decreases count - i,
        {
            slots.push(Slot::new(i));
            i = i + 1;
        }
        Session {
            sessionid,
            clientid,
            slots,
            connections: 1,
            created: Clock::start(),
            flags: 0,
            cb_program: 0,
            backchannel_up: false,
        }
    }

    /// The slot with the given number.
    pub fn get_slot(&self, slot_id: u32) -> (r: Option<&Slot>)
        ensures
            r == if (slot_id as int) < self.slots@.len() {
                Some(&self.slots@[slot_id as int])
            } else {
                None
            },
    {
        if (slot_id as usize) < self.slots.len() {
            Some(&self.slots[slot_id as usize])
        } else {
            None
        }
    }

    /// The highest slot number; zero where there is no slot.
    pub open spec fn spec_highest_slot(&self) -> u32 {
        if self.slots@.len() == 0 {
            0
        } else {
            (self.slots@.len() - 1) as u32
        }
    }

    /// The highest slot number; zero where there is no slot.
    pub fn highest_slot(&self) -> (r: u32)
        ensures
            r == self.spec_highest_slot(),
    {
        if self.slots.len() == 0 {
            0
        } else {
            #[verifier::truncate]
            ((self.slots.len() - 1) as u32)
        }
    }

    /// How many slots there are.
    pub fn slot_count(&self) -> (r: u32)
        ensures
            r == self.slots@.len() as u32,
    {
        #[verifier::truncate]
        (self.slots.len() as u32)
    }

    /// One more connection carries the session.
    pub fn add_connection(&mut self) -> (r: u32)
        requires
            old(self).connections < u32::MAX,
        ensures
            r == old(self).connections + 1,
            *final(self) == (Session { connections: r, ..*old(self) }),
    {
        self.connections = self.connections + 1;
        self.connections
    }

    /// One connection less carries the session.
    pub fn remove_connection(&mut self) -> (r: u32)
        requires
            old(self).connections > 0,
        ensures
            r == old(self).connections - 1,
            *final(self) == (Session { connections: r, ..*old(self) }),
    {
        self.connections = self.connections - 1;
        self.connections
    }

    /// How many connections carry the session.
    pub fn connection_count(&self) -> (r: u32)
        ensures
            r == self.connections,
    {
        self.connections
    }

    /// Sets the flags that the session was made with.
    pub fn set_flags(&mut self, flags: u32)
        ensures
            *final(self) == (Session { flags, ..*old(self) }),
    {
        self.flags = flags;
    }

    /// The flags that the session was made with.
    pub fn get_flags(&self) -> (r: u32)
        ensures
            r == self.flags,
    {
        self.flags
    }

    /// Sets the program that the client takes callbacks under.
    pub fn set_cb_program(&mut self, program: u32)
        ensures
            *final(self) == (Session { cb_program: program, ..*old(self) }),
    {
        self.cb_program = program;
    }

    /// The program that the client takes callbacks under.
    pub fn get_cb_program(&self) -> (r: u32)
        ensures
            r == self.cb_program,
    {
        self.cb_program
    }

    /// The client can be called back.
    pub fn set_backchannel_up(&mut self)
        ensures
            *final(self) == (Session { backchannel_up: true, ..*old(self) }),
    {
        self.backchannel_up = true;
    }

    /// Whether the client can be called back.
    pub fn is_backchannel_up(&self) -> (r: bool)
        ensures
            r == self.backchannel_up,
    {
        self.backchannel_up
    }
}

// ---------------------------------------------------------------------------
// All sessions
// ---------------------------------------------------------------------------

/// What a request is told of its session and its slot.
pub struct Admitted {
    pub clientid: Clientid4,
    /// The reply to a request that was run before.
    pub cached: Option<CachedReply>,
    pub sequenceid: u32,
    pub highest_slot: u32,
    pub target_highest_slot: u32,
    pub status_flags: u32,
}

/// All sessions, and which ones each client has.
pub struct SessionManager {
    /// By the number of the session id.
    pub sessions: HashMap<u128, Session>,
    /// The numbers of a client's session ids, oldest first.
    pub client_sessions: HashMap<u64, Vec<u128>>,
    pub next_session_id: u64,
    pub boot_time: u64,
    pub default_slot_count: u32,
}

/// The session id that is handed out `n`th by a server that started at `boot`.
pub open spec fn session_id(boot: u64, n: u64) -> Seq<u8> {
    le64(boot) + le64(n)
}

/// Which one a session id was in the order of handing out.
pub open spec fn serial(id: Seq<u8>) -> u64 {
    le64_at(id.skip(8))
}

/// Session ids that were handed out at different times differ.
pub proof fn law_session_ids_differ(boot: u64, n: u64, m: u64)
    requires
        n != m,
    ensures
        session_id(boot, n) != session_id(boot, m),
{
    serial_of_id(boot, n);
    serial_of_id(boot, m);
}

proof fn serial_of_id(boot: u64, n: u64)
    ensures
        session_id(boot, n).len() == 16,
        serial(session_id(boot, n)) == n,
{
    le64_round_trip(boot, le64(n), le64(n));
    le64_round_trip(n, le64(n), Seq::empty());
    assert(session_id(boot, n).skip(8) =~= le64(n) + Seq::<u8>::empty());
}

impl SessionManager {
    /// The sessions of a client, oldest first.
    pub open spec fn sessions_of(&self, clientid: Clientid4) -> Seq<u128> {
        if self.client_sessions@.contains_key(clientid) {
            self.client_sessions@[clientid]@
        } else {
            Seq::empty()
        }
    }

    /// A session stands under its own id, was handed out by this server, and is listed with its
    /// client.
    pub open spec fn session_ok(&self, k: u128) -> bool {
        let s = self.sessions@[k];
        &&& key16(s.sessionid@) == k
        &&& serial(s.sessionid@) < self.next_session_id
        &&& self.sessions_of(s.clientid).contains(k)
    }

    /// What is listed with a client is a session of that client, listed once.
    pub open spec fn list_ok(&self, c: Clientid4) -> bool {
        &&& self.sessions_of(c).no_duplicates()
        &&& forall|k: u128| #[trigger]
            self.sessions_of(c).contains(k) ==> self.sessions@.contains_key(k)
                && self.sessions@[k].clientid == c
    }

    /// The two tables agree.
    pub open spec fn wf(&self) -> bool {
        &&& forall|k: u128| #[trigger] self.sessions@.contains_key(k) ==> self.session_ok(k)
        &&& forall|c: u64| #[trigger] self.list_ok(c)
        &&& self.default_slot_count <= MAX_SLOT_COUNT
    }

    /// The same sessions, listed the same way.
    pub open spec fn same_as(&self, before: &SessionManager) -> bool {
        &&& self.sessions@ == before.sessions@
        &&& self.client_sessions == before.client_sessions
        &&& self.next_session_id == before.next_session_id
        &&& self.boot_time == before.boot_time
        &&& self.default_slot_count == before.default_slot_count
    }

    /// Only `k` among the sessions may differ from `before`, and no list does.
    pub open spec fn same_but(&self, before: &SessionManager, k: u128) -> bool {
        &&& self.sessions@.dom() == before.sessions@.dom()
        &&& forall|j: u128| #[trigger]
            self.sessions@.contains_key(j) && j != k ==> self.sessions@[j] == before.sessions@[j]
        &&& self.client_sessions == before.client_sessions
        &&& self.next_session_id == before.next_session_id
        &&& self.boot_time == before.boot_time
        &&& self.default_slot_count == before.default_slot_count
    }

    /// No sessions; new ones get the default number of slots.
    pub fn new() -> (r: Self)
        ensures
            r.wf(),
            r.sessions@ == Map::<u128, Session>::empty(),
            forall|c: u64| r.sessions_of(c) == Seq::<u128>::empty(),
            r.next_session_id == 1,
            r.default_slot_count == DEFAULT_SLOT_COUNT,
    {
        Self::with_slot_count(DEFAULT_SLOT_COUNT)
    }

    /// No sessions; new ones get `slot_count` slots, or the most there can be.
    pub fn with_slot_count(slot_count: u32) -> (r: Self)
        ensures
            r.wf(),
            r.sessions@ == Map::<u128, Session>::empty(),
            forall|c: u64| r.sessions_of(c) == Seq::<u128>::empty(),
            r.next_session_id == 1,
            r.default_slot_count == granted_slots(slot_count),
    {
        SessionManager {
            sessions: HashMap::new(),
            client_sessions: HashMap::new(),
            next_session_id: 1,
            boot_time: boot_time(),
            default_slot_count: grant_slots(slot_count),
        }
    }

    fn generate_sessionid(&mut self) -> (r: Sessionid4)
        requires
            old(self).next_session_id < u64::MAX,
        ensures
            r@ == session_id(old(self).boot_time, old(self).next_session_id),
            *final(self) == (SessionManager {
                next_session_id: (old(self).next_session_id + 1) as u64,
                ..*old(self)
            }),
    {
        let n: u64 = self.next_session_id;
        self.next_session_id = n + 1;
        let mut id: Vec<u8> = Vec::new();
        put_le64(&mut id, self.boot_time);
        put_le64(&mut id, n);
        proof {
            serial_of_id(self.boot_time, n);
            assert(id@ =~= session_id(self.boot_time, n));
        }
        to_array(id.as_slice())
    }

    /// A new session of `clientid`.
    pub fn create_session(&mut self, clientid: Clientid4) -> (r: Nfs4Result<Sessionid4>)
        requires
            old(self).wf(),
            old(self).next_session_id < u64::MAX,
        ensures
            final(self).wf(),
            final(self).has_created(old(self), clientid, 0, r),
    {
        self.create_session_with_flags(clientid, 0)
    }

    /// `self` is `before` with one more session of `clientid`, whose id is handed out.
    pub open spec fn has_created(
        &self,
        before: &SessionManager,
        clientid: Clientid4,
        flags: u32,
        r: Nfs4Result<Sessionid4>,
    ) -> bool {
        &&& r is Ok
        &&& r->Ok_0@ == session_id(before.boot_time, before.next_session_id)
        &&& {
            let k = key16(r->Ok_0@);
            &&& !before.sessions@.contains_key(k)
            &&& self.sessions@.dom() == before.sessions@.dom().insert(k)
            &&& forall|j: u128| #[trigger]
                before.sessions@.contains_key(j) ==> self.sessions@[j] == before.sessions@[j]
            &&& self.sessions@[k].sessionid == r->Ok_0
            &&& self.sessions@[k].is_new(clientid, before.default_slot_count, flags)
            &&& self.sessions_of(clientid) == before.sessions_of(clientid).push(k)
            &&& forall|c: u64|
                c != clientid ==> #[trigger] self.sessions_of(c) == before.sessions_of(c)
        }
        &&& self.next_session_id == before.next_session_id + 1
        &&& self.boot_time == before.boot_time
        &&& self.default_slot_count == before.default_slot_count
    }

    /// A new session of `clientid` with the given flags.
    pub fn create_session_with_flags(&mut self, clientid: Clientid4, flags: u32) -> (r: Nfs4Result<
        Sessionid4,
    >)
        requires
            old(self).wf(),
            old(self).next_session_id < u64::MAX,
        ensures
            final(self).wf(),
            final(self).has_created(old(self), clientid, flags, r),
    {
        let sessionid = self.generate_sessionid();
        let key: u128 = key_of16(&sessionid);
        proof {
            serial_of_id(old(self).boot_time, old(self).next_session_id);
            if old(self).sessions@.contains_key(key) {
                let s = old(self).sessions@[key];
                assert(old(self).session_ok(key));
                key16_injective(s.sessionid@, sessionid@);
            }
        }
        let mut session = Session::new(sessionid, clientid, self.default_slot_count);
        session.set_flags(flags);
        self.sessions.insert(key, session);
        let mut list = match self.client_sessions.remove(&clientid) {
            Some(list) => list,
            None => Vec::new(),
        };
        let ghost before = list@;
        assert(before == old(self).sessions_of(clientid));
        list.push(key);
        self.client_sessions.insert(clientid, list);
        proof {
            let l = before.push(key);
            assert(self.sessions_of(clientid) == l);
            assert forall|c: u64| c != clientid implies #[trigger] self.sessions_of(c) == old(
                self,
            ).sessions_of(c) by {}
            assert(l[l.len() - 1] == key);
            assert forall|k: u128| #[trigger] self.sessions@.contains_key(k) implies self.session_ok(
                k,
            ) by {
                if k != key {
                    assert(old(self).session_ok(k));
                    let s = self.sessions@[k];
                    if s.clientid == clientid {
                        let i = choose|i: int| 0 <= i < before.len() && before[i] == k;
                        assert(l[i] == k);
                    }
                }
            }
            assert forall|c: u64| #[trigger] self.list_ok(c) by {
                assert(old(self).list_ok(c));
                if c == clientid {
                    assert(!before.contains(key));
                    assert forall|k: u128| #[trigger] l.contains(k) implies k == key
                        || before.contains(k) by {
                        let i = choose|i: int| 0 <= i < l.len() && l[i] == k;
                        if i < before.len() {
                            assert(before[i] == k);
                        }
                    }
                }
            }
        }
        Ok(sessionid)
    }

    /// The session with the given id.
    pub fn get_session(&self, sessionid: &Sessionid4) -> (r: Option<&Session>)
        ensures
            r == if self.sessions@.contains_key(key16(sessionid@)) {
                Some(&self.sessions@[key16(sessionid@)])
            } else {
                None
            },
    {
        let key: u128 = key_of16(sessionid);
        self.sessions.get(&key)
    }

    /// Ends a session.
    pub fn destroy_session(&mut self, sessionid: &Sessionid4) -> (r: Nfs4Result<()>)
        requires
            old(self).wf(),
        ensures
            final(self).wf(),
            old(self).sessions@.contains_key(key16(sessionid@)) ==> r is Ok,
            !old(self).sessions@.contains_key(key16(sessionid@)) ==> fails_with(
                r,
                Nfs4Status::BadSession,
            ) && *final(self) == *old(self),
            final(self).sessions@ == old(self).sessions@.remove(key16(sessionid@)),
            forall|c: u64| #[trigger]
                final(self).sessions_of(c) == (if r is Ok && c == old(
                    self,
                ).sessions@[key16(sessionid@)].clientid {
                    without(old(self).sessions_of(c), key16(sessionid@))
                } else {
                    old(self).sessions_of(c)
                }),
            final(self).next_session_id == old(self).next_session_id,
            final(self).default_slot_count == old(self).default_slot_count,
            final(self).boot_time == old(self).boot_time,
    {
        let key: u128 = key_of16(sessionid);
        if !self.sessions.contains_key(&key) {
            assert(self.sessions@.remove(key) =~= self.sessions@);
            return failure(Nfs4Status::BadSession);
        }
        let clientid: u64 = match self.sessions.get(&key) {
            Some(s) => s.clientid,
            None => 0,
        };
        self.sessions.remove(&key);
        if let Some(list) = self.client_sessions.remove(&clientid) {
            let rest = take_out(&list, key);
            self.client_sessions.insert(clientid, rest);
        }
        proof {
            let before = old(self).sessions_of(clientid);
            without_keeps(before, key);
            assert(old(self).session_ok(key));
            assert(self.sessions_of(clientid) == without(before, key));
            assert forall|c: u64| c != clientid implies #[trigger] self.sessions_of(c) == old(
                self,
            ).sessions_of(c) by {}
            assert forall|k: u128| #[trigger] self.sessions@.contains_key(k) implies self.session_ok(
                k,
            ) by {
                assert(old(self).session_ok(k));
            }
            assert forall|c: u64| #[trigger] self.list_ok(c) by {
                assert(old(self).list_ok(c));
                if c != clientid {
                    assert forall|k: u128| #[trigger]
                        self.sessions_of(c).contains(k) implies k != key by {}
                }
            }
        }
        Ok(())
    }

    /// Ends all sessions of a client.
    pub fn destroy_client_sessions(&mut self, clientid: Clientid4)
        requires
            old(self).wf(),
        ensures
            final(self).wf(),
            forall|k: u128| #[trigger]
                final(self).sessions@.contains_key(k) <==> old(self).sessions@.contains_key(k)
                    && old(self).sessions@[k].clientid != clientid,
            forall|k: u128| #[trigger]
                final(self).sessions@.contains_key(k) ==> final(self).sessions@[k] == old(
                    self,
                ).sessions@[k],
            forall|c: u64| #[trigger]
                final(self).sessions_of(c) == (if c == clientid {
                    Seq::empty()
                } else {
                    old(self).sessions_of(c)
                }),
            final(self).next_session_id == old(self).next_session_id,
            final(self).default_slot_count == old(self).default_slot_count,
            final(self).boot_time == old(self).boot_time,
    {
        let list = match self.client_sessions.remove(&clientid) {
            Some(list) => list,
            None => Vec::new(),
        };
        assert(list@ == old(self).sessions_of(clientid));
        let ghost lists = self.client_sessions;
        let mut i: usize = 0;
        while i < list.len()
            invariant
                i <= list.len(),
                self.client_sessions == lists,
                self.next_session_id == old(self).next_session_id,
                self.boot_time == old(self).boot_time,
                self.default_slot_count == old(self).default_slot_count,
                forall|k: u128| #[trigger]
                    self.sessions@.contains_key(k) <==> old(self).sessions@.contains_key(k)
                        && !list@.take(i as int).contains(k),
                forall|k: u128| #[trigger]
                    self.sessions@.contains_key(k) ==> self.sessions@[k] == old(self).sessions@[k],
            decreases list.len() - i,
        {
            let k: u128 = list[i];
            self.sessions.remove(&k);
            proof {
                take_one_more(list@, i as int);
            }
            i = i + 1;
        }
        proof {
            assert(list@.take(i as int) =~= list@);
            assert(old(self).list_ok(clientid));
            assert forall|k: u128| old(self).sessions@.contains_key(k) implies (list@.contains(k)
                <==> old(self).sessions@[k].clientid == clientid) by {
                assert(old(self).session_ok(k));
                if list@.contains(k) {
                    assert(old(self).sessions_of(clientid).contains(k));
                }
            }
            assert forall|c: u64| #[trigger] self.sessions_of(c) == (if c == clientid {
                Seq::empty()
            } else {
                old(self).sessions_of(c)
            }) by {}
            assert forall|k: u128| #[trigger] self.sessions@.contains_key(k) implies self.session_ok(
                k,
            ) by {
                assert(old(self).session_ok(k));
            }
            assert forall|c: u64| #[trigger] self.list_ok(c) by {
                assert(old(self).list_ok(c));
                assert forall|k: u128| #[trigger] self.sessions_of(c).contains(k) implies
                    self.sessions@.contains_key(k) && self.sessions@[k].clientid == c by {
                    assert(!Seq::<u128>::empty().contains(k));
                    assert(self.sessions_of(c) == old(self).sessions_of(c));
                    assert(old(self).sessions_of(c).contains(k));
                    assert(old(self).sessions@[k].clientid == c);
                }
            }
        }
    }

    /// Whether the client has a session.
    pub fn has_client_sessions(&self, clientid: Clientid4) -> (r: bool)
        ensures
            r == (self.sessions_of(clientid).len() > 0),
            self.wf() ==> (r <==> exists|k: u128|
                #[trigger] self.sessions@.contains_key(k) && self.sessions@[k].clientid
                    == clientid),
    {
        let r = match self.client_sessions.get(&clientid) {
            Some(list) => list.len() > 0,
            None => false,
        };
        proof {
            if self.wf() {
                let l = self.sessions_of(clientid);
                assert(self.list_ok(clientid));
                if r {
                    assert(l.contains(l[0]));
                    assert(self.sessions@.contains_key(l[0]));
                }
                if exists|k: u128| #[trigger]
                    self.sessions@.contains_key(k) && self.sessions@[k].clientid == clientid {
                    let k = choose|k: u128| #[trigger]
                        self.sessions@.contains_key(k) && self.sessions@[k].clientid == clientid;
                    assert(self.session_ok(k));
                    assert(l.contains(k));
                }
            }
        }
        r
    }

    /// What becomes of a request in the slot `slot_id` of a session.
    pub open spec fn admission(&self, k: u128, slot_id: u32, seq: u32) -> Admission {
        if !self.sessions@.contains_key(k) {
            Admission::Refuse(Nfs4Status::BadSession)
        } else if slot_id as int >= self.sessions@[k].slots@.len() {
            Admission::Refuse(Nfs4Status::BadSlot)
        } else {
            self.sessions@[k].slots@[slot_id as int].admission(seq)
        }
    }

    /// Whether there is such a slot.
    pub open spec fn has_slot(&self, k: u128, slot_id: u32) -> bool {
        self.sessions@.contains_key(k) && (slot_id as int) < self.sessions@[k].slots@.len()
    }

    /// `self` is `before` with one slot of one session replaced, where there is such a slot.
    pub open spec fn has_replaced_slot(
        &self,
        before: &SessionManager,
        k: u128,
        slot_id: u32,
        slot: Slot,
    ) -> bool {
        if before.has_slot(k, slot_id) {
            &&& self.same_but(before, k)
            &&& self.sessions@[k].is_with_slot(before.sessions@[k], slot_id as int, slot)
        } else {
            self.same_as(before)
        }
    }

    proof fn wf_survives(&self, before: &SessionManager, k: u128, slot_id: u32, slot: Slot)
        requires
            before.wf(),
            self.has_replaced_slot(before, k, slot_id, slot),
        ensures
            self.wf(),
    {
        assert forall|j: u128| #[trigger] self.sessions@.contains_key(j) implies self.session_ok(
            j,
        ) by {
            assert(before.session_ok(j));
        }
        assert forall|c: u64| #[trigger] self.list_ok(c) by {
            assert(before.list_ok(c));
            assert(self.sessions_of(c) == before.sessions_of(c));
        }
    }

    /// Lets a request in through a slot.
    pub fn sequence(&mut self, sessionid: &Sessionid4, slot_id: u32, sequence_id: u32) -> (r:
        Nfs4Result<Admitted>)
        requires
            old(self).wf(),
        ensures
            final(self).wf(),
            final(self).has_replaced_slot(
                old(self),
                key16(sessionid@),
                slot_id,
                old(self).sessions@[key16(sessionid@)].slots@[slot_id as int].admitting(
                    sequence_id,
                ),
            ),
            match old(self).admission(key16(sessionid@), slot_id, sequence_id) {
                Admission::Refuse(st) => fails_with(r, st),
                Admission::Run => r is Ok && r->Ok_0.cached is None,
                Admission::Replay(b) => r is Ok && r->Ok_0.cached is Some
                    && r->Ok_0.cached->Some_0.sequence == sequence_id
                    && r->Ok_0.cached->Some_0.reply@ == b,
            },
            r is Ok ==> {
                let s = old(self).sessions@[key16(sessionid@)];
                &&& r->Ok_0.clientid == s.clientid
                &&& r->Ok_0.sequenceid == sequence_id
                &&& r->Ok_0.highest_slot == s.spec_highest_slot()
                &&& r->Ok_0.target_highest_slot == s.spec_highest_slot()
                &&& r->Ok_0.status_flags == s.flags
            },
    {
        let key: u128 = key_of16(sessionid);
        let mut session = match self.sessions.remove(&key) {
            Some(s) => s,
            None => {
                proof {
                    assert(self.sessions@ =~= old(self).sessions@);
                    self.wf_survives(old(self), key, slot_id, Slot::fresh(0));
                }
                return failure(Nfs4Status::BadSession);
            },
        };
        if slot_id as usize >= session.slots.len() {
            self.sessions.insert(key, session);
            proof {
                assert(self.sessions@ =~= old(self).sessions@);
                self.wf_survives(old(self), key, slot_id, Slot::fresh(0));
            }
            return failure(Nfs4Status::BadSlot);
        }
        let outcome = session.slots[slot_id as usize].acquire(sequence_id);
        let clientid: u64 = session.clientid;
        let highest: u32 = session.highest_slot();
        let flags: u32 = session.get_flags();
        self.sessions.insert(key, session);
        proof {
            let slot = old(self).sessions@[key].slots@[slot_id as int].admitting(sequence_id);
            assert(self.sessions@.dom() =~= old(self).sessions@.dom());
            assert(self.has_replaced_slot(old(self), key, slot_id, slot));
            self.wf_survives(old(self), key, slot_id, slot);
        }
        match outcome {
            Ok(cached) => Ok(
                Admitted {
                    clientid,
                    cached,
                    sequenceid: sequence_id,
                    highest_slot: highest,
                    target_highest_slot: highest,
                    status_flags: flags,
                },
            ),
            Err(st) => failure(st),
        }
    }

    /// Whether the request in a slot was answered, and the reply is kept.
    pub open spec fn has_kept(
        &self,
        before: &SessionManager,
        sessionid: Seq<u8>,
        slot_id: u32,
        reply: Vec<u8>,
    ) -> bool {
        let k = key16(sessionid);
        self.has_replaced_slot(
            before,
            k,
            slot_id,
            before.sessions@[k].slots@[slot_id as int].answering(reply),
        )
    }

    /// The request in a slot was answered; the reply is kept. Nothing happens where there is no
    /// such slot.
    pub fn cache_reply(&mut self, sessionid: &Sessionid4, slot_id: u32, reply: Vec<u8>)
        requires
            old(self).wf(),
        ensures
            final(self).wf(),
            final(self).has_kept(old(self), sessionid@, slot_id, reply),
    {
        let key: u128 = key_of16(sessionid);
        if let Some(mut session) = self.sessions.remove(&key) {
            if (slot_id as usize) < session.slots.len() {
                session.slots[slot_id as usize].release(reply);
            }
            self.sessions.insert(key, session);
        }
        proof {
            let slot = old(self).sessions@[key].slots@[slot_id as int].answering(reply);
            assert(self.sessions@.dom() =~= old(self).sessions@.dom());
            if !(old(self).sessions@.contains_key(key) && (slot_id as int) < old(
                self,
            ).sessions@[key].slots@.len()) {
                assert(self.sessions@ =~= old(self).sessions@);
            }
            assert(self.has_replaced_slot(old(self), key, slot_id, slot));
            self.wf_survives(old(self), key, slot_id, slot);
        }
    }

    /// The request in a slot was answered; the reply is not kept. Nothing happens where there is
    /// no such slot.
    pub fn release_slot(&mut self, sessionid: &Sessionid4, slot_id: u32)
        requires
            old(self).wf(),
        ensures
            final(self).wf(),
            final(self).has_replaced_slot(
                old(self),
                key16(sessionid@),
                slot_id,
                old(self).sessions@[key16(sessionid@)].slots@[slot_id as int].dismissing(),
            ),
    {
        let key: u128 = key_of16(sessionid);
        if let Some(mut session) = self.sessions.remove(&key) {
            if (slot_id as usize) < session.slots.len() {
                session.slots[slot_id as usize].release_no_cache();
            }
            self.sessions.insert(key, session);
        }
        proof {
            let slot = old(self).sessions@[key].slots@[slot_id as int].dismissing();
            assert(self.sessions@.dom() =~= old(self).sessions@.dom());
            if !(old(self).sessions@.contains_key(key) && (slot_id as int) < old(
                self,
            ).sessions@[key].slots@.len()) {
                assert(self.sessions@ =~= old(self).sessions@);
            }
            assert(self.has_replaced_slot(old(self), key, slot_id, slot));
            self.wf_survives(old(self), key, slot_id, slot);
        }
    }

    /// How many slots new sessions get.
    pub fn default_slot_count(&self) -> (r: u32)
        ensures
            r == self.default_slot_count,
    {
        self.default_slot_count
    }
}

/// A session that is listed with a client is a session of that client and of no other.
pub proof fn law_session_has_one_client(m: SessionManager, c: Clientid4, d: Clientid4, k: u128)
    requires
        m.wf(),
        m.sessions_of(c).contains(k),
        m.sessions_of(d).contains(k),
    ensures
        c == d,
        m.sessions@.contains_key(k),
        m.sessions@[k].clientid == c,
{
    assert(m.list_ok(c) && m.list_ok(d));
}

} // verus!
