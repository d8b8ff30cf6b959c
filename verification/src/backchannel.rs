//! Calling clients back, over the connections that they have set up for it.
//!
//! A callback takes a free slot of the client's session, goes out over the connection of the
//! session, and frees the slot again when it is answered. What is to go out is handed to the
//! caller, who owns the connections.

use crate::bytes::{
    be32, be_bool, key16, key_of16, opaque, put_bool, put_bytes, put_opaque, put_u32,
};
use crate::error::{fails_with, failure, Nfs4Result, Nfs4Status};
use crate::rpc::{auth_flavor, call_body, opaque_auth, rpc_body, rpc_msg};
use crate::table::{
    indexed, indexed_drop_all, indexed_insert, indexed_remove, indexed_update, take_one_more,
    without, KeyIndex,
};
use crate::types::{Clientid4, Nfs4FileHandle, Sessionid4, Stateid4};
use crate::xdr::XDR;
use std::collections::HashMap;
use vstd::prelude::*;

verus! {

broadcast use vstd::std_specs::hash::group_hash_axioms;

/// The version of the callback program.
pub const NFS_CB_VERSION: u32 = 1;

/// The callback procedure that holds operations.
pub const CB_COMPOUND_PROC: u32 = 1;

/// The callback operation that asks for a delegation back.
pub const NFS4_OP_CB_RECALL: u32 = 4;

/// The callback operation that names a slot.
pub const NFS4_OP_CB_SEQUENCE: u32 = 11;

/// What callbacks are tagged with.
pub open spec fn cb_tag() -> Seq<u8> {
    // "curvine-cb"
    seq![99u8, 117u8, 114u8, 118u8, 105u8, 110u8, 101u8, 45u8, 99u8, 98u8]
}

/// What a client is told or asked.
#[derive(Debug)]
pub enum CallbackOp {
    /// To give a delegation back.
    Recall { stateid: Stateid4, truncate: bool },
    /// To give a layout back.
    LayoutRecall { layout_type: u32, iomode: u32, changed: bool },
    /// That attributes have changed.
    Notify { changes: Vec<u32> },
    /// For attributes of a file that it may be writing.
    Getattr { bitmap: Vec<u32> },
}

impl CallbackOp {
    /// Whether both say the same.
    pub open spec fn same(&self, other: &CallbackOp) -> bool {
        match (self, other) {
            (
                CallbackOp::Recall { stateid, truncate },
                CallbackOp::Recall { stateid: s2, truncate: t2 },
            ) => stateid == s2 && truncate == t2,
            (
                CallbackOp::LayoutRecall { layout_type, iomode, changed },
                CallbackOp::LayoutRecall { layout_type: l2, iomode: i2, changed: c2 },
            ) => layout_type == l2 && iomode == i2 && changed == c2,
            (
                CallbackOp::Notify { changes },
                CallbackOp::Notify { changes: c2 },
            ) => changes@ == c2@,
            (CallbackOp::Getattr { bitmap }, CallbackOp::Getattr { bitmap: b2 }) => bitmap@ == b2@,
            _ => false,
        }
    }
}

impl Clone for CallbackOp {
    fn clone(&self) -> (r: Self)
        ensures
            self.same(&r),
    {
        match self {
            CallbackOp::Recall { stateid, truncate } => CallbackOp::Recall {
                stateid: *stateid,
                truncate: *truncate,
            },
            CallbackOp::LayoutRecall { layout_type, iomode, changed } => CallbackOp::LayoutRecall {
                layout_type: *layout_type,
                iomode: *iomode,
                changed: *changed,
            },
            CallbackOp::Notify { changes } => CallbackOp::Notify { changes: changes.clone() },
            CallbackOp::Getattr { bitmap } => CallbackOp::Getattr { bitmap: bitmap.clone() },
        }
    }
}

/// A callback of a session.
#[derive(Debug)]
pub struct CallbackTask {
    pub session_id: Sessionid4,
    pub op: CallbackOp,
    pub file_handle: Nfs4FileHandle,
}

/// Whether a session's client can be called back.
#[derive(Clone, Copy, Debug, PartialEq, Eq, Structural)]
pub enum BackchannelState {
    /// Was never set up.
    Missing,
    Up,
    /// For the time being not.
    Down,
    /// Never again.
    Failed,
}

/// A slot, through which one callback runs at a time.
#[derive(Clone, Copy, Debug, PartialEq, Eq, Structural)]
pub struct BackchannelSlot {
    pub slot_id: u32,
    /// The number that the next callback carries.
    pub sequence: u32,
    pub in_use: bool,
}

/// A callback that was not answered yet.
#[derive(Debug)]
pub struct InflightCall {
    pub slot_id: u32,
    pub op: CallbackOp,
}

/// A callback that is to be sent over a connection.
#[derive(Debug)]
pub struct Outbound {
    /// The connection.
    pub transport: u64,
    pub xid: u32,
    pub bytes: Vec<u8>,
}

/// How a session's client is called back.
#[derive(Debug)]
pub struct BackchannelConn {
    pub session_id: Sessionid4,
    pub client_id: Clientid4,
    pub state: BackchannelState,
    pub cb_program: u32,
    pub slots: Vec<BackchannelSlot>,
    /// What is to be picked up in this process, oldest first.
    pub queue: Vec<CallbackTask>,
    /// The connection that callbacks go out over.
    pub wire: Option<u64>,
    /// The credentials that callbacks carry.
    pub auth: opaque_auth,
    pub inflight: HashMap<u32, InflightCall>,
}

/// The number behind `n`; it starts anew at one.
pub open spec fn next_sequence(n: u32) -> u32 {
    if n == u32::MAX {
        1
    } else {
        (n + 1) as u32
    }
}

/// The first slot that is free, from `i` on.
pub open spec fn free_slot(slots: Seq<BackchannelSlot>, i: int) -> Option<int>
    decreases slots.len() - i,
{
    if i < 0 || i >= slots.len() {
        None
    } else if !slots[i].in_use {
        Some(i)
    } else {
        free_slot(slots, i + 1)
    }
}

impl BackchannelConn {
    /// Slots stand in the order of their numbers, and callbacks that were not answered name one.
    pub open spec fn wf(&self) -> bool {
        &&& self.slots@.len() <= u32::MAX
        &&& forall|i: int|
            0 <= i < self.slots@.len() ==> (#[trigger] self.slots@[i]).slot_id == i
    }

    /// Whether this is the channel of a session over which nothing was sent yet.
    pub open spec fn is_unused(
        &self,
        session_id: Sessionid4,
        client_id: Clientid4,
        cb_program: u32,
        slot_count: u32,
    ) -> bool {
        &&& self.session_id == session_id
        &&& self.client_id == client_id
        &&& self.cb_program == cb_program
        &&& self.slots@.len() == slot_count
        &&& forall|i: int|
            0 <= i < self.slots@.len() ==> #[trigger] self.slots@[i] == (BackchannelSlot {
                slot_id: i as u32,
                sequence: 1,
                in_use: false,
            })
        &&& self.queue@.len() == 0
        &&& self.inflight@ == Map::<u32, InflightCall>::empty()
    }

    /// The same but for the slots and the callbacks that were not answered.
    pub open spec fn same_rest(&self, before: &BackchannelConn) -> bool {
        &&& self.session_id == before.session_id
        &&& self.client_id == before.client_id
        &&& self.state == before.state
        &&& self.cb_program == before.cb_program
        &&& self.queue == before.queue
        &&& self.wire == before.wire
        &&& self.auth == before.auth
    }

    /// A way to call a client back that was just set up.
    pub fn new(
        session_id: Sessionid4,
        client_id: Clientid4,
        cb_program: u32,
        slot_count: u32,
    ) -> (r: Self)
        ensures
            r.wf(),
            r.is_unused(session_id, client_id, cb_program, slot_count),
            r.state == BackchannelState::Up,
            r.wire is None,
            r.auth.is_null(),
    {
        let mut slots: Vec<BackchannelSlot> = Vec::new();
        let mut i: u32 = 0;
        while i < slot_count
            invariant
                i <= slot_count,
                slots@.len() == i,
                forall|j: int|
                    0 <= j < i ==> #[trigger] slots@[j] == (BackchannelSlot {
                        slot_id: j as u32,
                        sequence: 1,
                        in_use: false,
                    }),
            decreases slot_count - i,
        {
            slots.push(BackchannelSlot { slot_id: i, sequence: 1, in_use: false });
            i = i + 1;
        }
        BackchannelConn {
            session_id,
            client_id,
            state: BackchannelState::Up,
            cb_program,
            slots,
            queue: Vec::new(),
            wire: None,
            auth: opaque_auth { flavor: auth_flavor::AUTH_NULL, body: Vec::new() },
            inflight: HashMap::new(),
        }
    }

    /// Whether the client can be called back.
    pub fn state(&self) -> (r: BackchannelState)
        ensures
            r == self.state,
    {
        self.state
    }

    /// Sets whether the client can be called back.
    pub fn set_state(&mut self, state: BackchannelState)
        ensures
            *final(self) == (BackchannelConn { state, ..*old(self) }),
    {
        self.state = state;
    }

    /// The highest slot number; zero where there is no slot.
    pub open spec fn highest(&self) -> u32 {
        if self.slots@.len() == 0 {
            0
        } else {
            (self.slots@.len() - 1) as u32
        }
    }

    /// Takes the first free slot. Gives its number, the number that the callback carries, and the
    /// highest slot number.
    pub fn reserve_call(&mut self) -> (r: Option<(u32, u32, u32)>)
        requires
            old(self).wf(),
        ensures
            final(self).wf(),
            final(self).same_rest(old(self)),
            final(self).inflight == old(self).inflight,
            match free_slot(old(self).slots@, 0) {
                Some(i) => {
                    let slot = old(self).slots@[i];
                    &&& 0 <= i < old(self).slots@.len()
                    &&& r == Some((slot.slot_id, slot.sequence, old(self).highest()))
                    &&& final(self).slots@ == old(self).slots@.update(
                        i,
                        BackchannelSlot {
                            sequence: next_sequence(slot.sequence),
                            in_use: true,
                            ..slot
                        },
                    )
                },
                None => r is None && final(self).slots@ == old(self).slots@,
            },
    {
        let highest: u32 = if self.slots.len() == 0 {
            0
        } else {
            (self.slots.len() - 1) as u32
        };
        let mut i: usize = 0;
        while i < self.slots.len()
            invariant
                *self == *old(self),
                self.wf(),
                i <= self.slots.len(),
                highest == self.highest(),
                free_slot(self.slots@, 0) == free_slot(self.slots@, i as int),
            decreases self.slots.len() - i,
        {
            let slot = self.slots[i];
            if !slot.in_use {
                let next: u32 = if slot.sequence == u32::MAX {
                    1
                } else {
                    slot.sequence + 1
                };
                self.slots.set(
                    i,
                    BackchannelSlot { slot_id: slot.slot_id, sequence: next, in_use: true },
                );
                return Some((slot.slot_id, slot.sequence, highest));
            }
            i = i + 1;
        }
        None
    }

    /// The slots after the one with the given number was freed.
    pub open spec fn freed(slots: Seq<BackchannelSlot>, slot_id: u32) -> Seq<BackchannelSlot> {
        if (slot_id as int) < slots.len() {
            slots.update(
                slot_id as int,
                BackchannelSlot { in_use: false, ..slots[slot_id as int] },
            )
        } else {
            slots
        }
    }

    /// A callback was answered: its slot is free again, and what it was comes back.
    pub fn release_call(&mut self, xid: u32) -> (r: Option<CallbackOp>)
        requires
            old(self).wf(),
        ensures
            final(self).wf(),
            final(self).same_rest(old(self)),
            final(self).inflight@ == old(self).inflight@.remove(xid),
            if old(self).inflight@.contains_key(xid) {
                let call = old(self).inflight@[xid];
                &&& r == Some(call.op)
                &&& final(self).slots@ == Self::freed(old(self).slots@, call.slot_id)
            } else {
                r is None && final(self).slots@ == old(self).slots@
            },
    {
        match self.inflight.remove(&xid) {
            None => {
                assert(self.inflight@ =~= old(self).inflight@.remove(xid));
                None
            },
            Some(call) => {
                let i: usize = call.slot_id as usize;
                if i < self.slots.len() {
                    let slot = self.slots[i];
                    self.slots.set(
                        i,
                        BackchannelSlot {
                            slot_id: slot.slot_id,
                            sequence: slot.sequence,
                            in_use: false,
                        },
                    );
                }
                Some(call.op)
            },
        }
    }
}

/// A slot that was taken and whose callback was answered is free again, and the next callback in
/// it carries the next number.
pub proof fn law_slot_is_freed_with_next_number(slots: Seq<BackchannelSlot>, i: int)
    requires
        free_slot(slots, 0) == Some(i),
        0 <= i < slots.len(),
        slots[i].slot_id == i,
    ensures
        ({
            let taken = slots.update(
                i,
                BackchannelSlot {
                    sequence: next_sequence(slots[i].sequence),
                    in_use: true,
                    ..slots[i]
                },
            );
            let back = BackchannelConn::freed(taken, i as u32);
            &&& back[i] == BackchannelSlot {
                sequence: next_sequence(slots[i].sequence),
                ..slots[i]
            }
            &&& forall|j: int| 0 <= j < slots.len() && j != i ==> back[j] == slots[j]
        }),
{
    free_slot_is_free(slots, 0);
}

proof fn free_slot_is_free(slots: Seq<BackchannelSlot>, i: int)
    ensures
        free_slot(slots, i) matches Some(j) ==> 0 <= j < slots.len() && !slots[j].in_use,
    decreases slots.len() - i,
{
    if 0 <= i < slots.len() && slots[i].in_use {
        free_slot_is_free(slots, i + 1);
    }
}

// ---------------------------------------------------------------------------
// What goes out
// ---------------------------------------------------------------------------

/// The operation that names the slot.
pub open spec fn cb_sequence_bytes(session: Seq<u8>, slot: u32, seq: u32, highest: u32) -> Seq<u8> {
    be32(NFS4_OP_CB_SEQUENCE) + session + be32(seq) + be32(slot) + be32(highest) + be_bool(false)
        + be32(0)
}

/// The operation that asks for a delegation back.
pub open spec fn cb_recall_bytes(stateid: Stateid4, truncate: bool, fh: Seq<u8>) -> Seq<u8> {
    be32(NFS4_OP_CB_RECALL) + stateid.encoding() + be_bool(truncate) + opaque(fh)
}

/// The head of a callback.
pub open spec fn cb_call_bytes(xid: u32, prog: u32, cred: opaque_auth) -> Seq<u8> {
    be32(xid) + be32(0) + be32(2) + be32(prog) + be32(NFS_CB_VERSION) + be32(CB_COMPOUND_PROC)
        + cred.encoding() + be32(0) + opaque(Seq::empty())
}

/// A whole callback: its head, its tag, and the two operations.
pub open spec fn callback_bytes(
    conn: &BackchannelConn,
    xid: u32,
    slot: u32,
    seq: u32,
    highest: u32,
    stateid: Stateid4,
    truncate: bool,
    fh: Seq<u8>,
) -> Seq<u8> {
    cb_call_bytes(xid, conn.cb_program, conn.auth) + opaque(cb_tag()) + be32(1) + be32(0) + be32(2)
        + cb_sequence_bytes(conn.session_id@, slot, seq, highest) + cb_recall_bytes(
        stateid,
        truncate,
        fh,
    )
}

fn put_cb_sequence(out: &mut Vec<u8>, session: &Sessionid4, slot: u32, seq: u32, highest: u32)
    ensures
        final(out)@ == old(out)@ + cb_sequence_bytes(session@, slot, seq, highest),
{
    let ghost o = out@;
    put_u32(out, NFS4_OP_CB_SEQUENCE);
    put_bytes(out, vstd::array::array_as_slice(session));
    put_u32(out, seq);
    put_u32(out, slot);
    put_u32(out, highest);
    put_bool(out, false);
    put_u32(out, 0);
    assert(out@ =~= o + cb_sequence_bytes(session@, slot, seq, highest));
}

fn put_cb_recall(out: &mut Vec<u8>, stateid: &Stateid4, truncate: bool, fh: &Nfs4FileHandle)
    ensures
        final(out)@ == old(out)@ + cb_recall_bytes(*stateid, truncate, fh@),
{
    let ghost o = out@;
    put_u32(out, NFS4_OP_CB_RECALL);
    let _ = stateid.serialize(out);
    put_bool(out, truncate);
    put_opaque(out, fh.data.as_slice());
    assert(out@ =~= o + cb_recall_bytes(*stateid, truncate, fh@));
}

/// A copy of credentials.
fn copy_auth(a: &opaque_auth) -> (r: opaque_auth)
    ensures
        r.flavor == a.flavor,
        r.body@ == a.body@,
{
    opaque_auth { flavor: a.flavor, body: crate::bytes::bytes_vec(a.body.as_slice()) }
}

/// The bytes of a callback that asks for a delegation back. It fails only where the credentials
/// are too long to be written.
pub fn encode_wire_callback(
    conn: &BackchannelConn,
    xid: u32,
    slot_id: u32,
    sequence_id: u32,
    highest_slot: u32,
    stateid: &Stateid4,
    truncate: bool,
    file_handle: &Nfs4FileHandle,
) -> (r: Nfs4Result<Vec<u8>>)
    ensures
        if conn.auth.encodable() {
            r is Ok && r->Ok_0@ == callback_bytes(
                conn,
                xid,
                slot_id,
                sequence_id,
                highest_slot,
                *stateid,
                truncate,
                file_handle@,
            )
        } else {
            fails_with(r, Nfs4Status::Io)
        },
{
    let mut out: Vec<u8> = Vec::new();
    let msg = rpc_msg {
        xid,
        body: rpc_body::CALL(
            call_body {
                rpcvers: 2,
                prog: conn.cb_program,
                vers: NFS_CB_VERSION,
                proc: CB_COMPOUND_PROC,
                cred: copy_auth(&conn.auth),
                verf: opaque_auth::default(),
            },
        ),
    };
    proof {
        assert(msg.body->CALL_0.verf.body@ =~= Seq::empty());
        assert(msg.encoding() =~= cb_call_bytes(xid, conn.cb_program, conn.auth));
    }
    if msg.serialize(&mut out).is_err() {
        return failure(Nfs4Status::Io);
    }
    assert(out@ =~= cb_call_bytes(xid, conn.cb_program, conn.auth));
    let tag: [u8; 10] = [99, 117, 114, 118, 105, 110, 101, 45, 99, 98];
    assert(tag@ =~= cb_tag());
    put_opaque(&mut out, vstd::array::array_as_slice(&tag));
    put_u32(&mut out, 1);
    put_u32(&mut out, 0);
    put_u32(&mut out, 2);
    put_cb_sequence(&mut out, &conn.session_id, slot_id, sequence_id, highest_slot);
    put_cb_recall(&mut out, stateid, truncate, file_handle);
    Ok(out)
}

// ---------------------------------------------------------------------------
// All sessions
// ---------------------------------------------------------------------------

/// How the clients of all sessions are called back.
pub struct BackchannelManager {
    /// By the number of the session id.
    pub channels: HashMap<u128, BackchannelConn>,
    pub client_sessions: KeyIndex,
    /// The number that the next callback is told apart by.
    pub next_xid: u32,
    /// The session of each callback that was not answered yet.
    pub inflight: HashMap<u32, u128>,
}

/// The first of the sessions whose client can be called back, from `i` on.
pub open spec fn first_up(
    list: Seq<u128>,
    channels: Map<u128, BackchannelConn>,
    i: int,
) -> Option<u128>
    decreases list.len() - i,
{
    if i < 0 || i >= list.len() {
        None
    } else if channels.contains_key(list[i]) && channels[list[i]].state == BackchannelState::Up {
        Some(list[i])
    } else {
        first_up(list, channels, i + 1)
    }
}

impl BackchannelManager {
    /// The client that a session belongs to.
    pub open spec fn client() -> spec_fn(BackchannelConn) -> u64 {
        |c: BackchannelConn| c.client_id
    }

    /// Sessions stand under their ids and are listed with their clients.
    pub open spec fn wf(&self) -> bool {
        &&& forall|k: u128| #[trigger]
            self.channels@.contains_key(k) ==> key16(self.channels@[k].session_id@) == k
                && self.channels@[k].wf()
        &&& indexed(self.channels@, self.client_sessions, Self::client())
    }

    /// No session can be called back.
    pub fn new() -> (r: Self)
        ensures
            r.wf(),
            r.channels@ == Map::<u128, BackchannelConn>::empty(),
            r.inflight@ == Map::<u32, u128>::empty(),
            r.next_xid == 1,
    {
        BackchannelManager {
            channels: HashMap::new(),
            client_sessions: KeyIndex::new(),
            next_xid: 1,
            inflight: HashMap::new(),
        }
    }

    /// The session over which a client is called back.
    pub open spec fn route(&self, client_id: Clientid4) -> Option<u128> {
        first_up(self.client_sessions.of(client_id), self.channels@, 0)
    }

    fn find_route(&self, client_id: Clientid4) -> (r: Option<u128>)
        ensures
            r == self.route(client_id),
            r is Some ==> self.channels@.contains_key(r->Some_0),
    {
        if let Some(list) = self.client_sessions.get(client_id) {
            let mut i: usize = 0;
            while i < list.len()
                invariant
                    i <= list.len(),
                    list@ == self.client_sessions.of(client_id),
                    first_up(list@, self.channels@, 0) == first_up(list@, self.channels@, i as int),
                decreases list.len() - i,
            {
                let k: u128 = list[i];
                if let Some(conn) = self.channels.get(&k) {
                    if conn.state() == BackchannelState::Up {
                        return Some(k);
                    }
                }
                i = i + 1;
            }
        }
        None
    }

    /// Whether the client can be called back over one of its sessions.
    pub fn is_available_for_client(&self, client_id: Clientid4) -> (r: bool)
        ensures
            r == (self.route(client_id) is Some),
    {
        self.find_route(client_id).is_some()
    }

    /// A session's client can be called back from now on. Where that was set up before, it only
    /// counts as up again.
    pub fn register(
        &mut self,
        session_id: Sessionid4,
        client_id: Clientid4,
        cb_program: u32,
        slot_count: u32,
    )
        requires
            old(self).wf(),
        ensures
            final(self).wf(),
            final(self).has_registered(old(self), session_id, client_id, cb_program, slot_count),
    {
        let key: u128 = key_of16(&session_id);
        match self.channels.remove(&key) {
            Some(mut conn) => {
                conn.set_state(BackchannelState::Up);
                let ghost c = conn;
                self.channels.insert(key, conn);
                proof {
                    assert(self.channels@ =~= old(self).channels@.insert(key, c));
                    self.wf_survives(old(self), key, c);
                }
            },
            None => {
                let conn = BackchannelConn::new(session_id, client_id, cb_program, slot_count);
                let ghost c = conn;
                self.channels.insert(key, conn);
                self.client_sessions.put(client_id, key);
                proof {
                    assert(self.channels@ =~= old(self).channels@.insert(key, c));
                    indexed_insert(
                        old(self).channels@,
                        old(self).client_sessions,
                        self.client_sessions,
                        Self::client(),
                        key,
                        c,
                    );
                }
            },
        }
    }

    /// `self` is `before` with a session's client up.
    pub open spec fn has_registered(
        &self,
        before: &BackchannelManager,
        session_id: Sessionid4,
        client_id: Clientid4,
        cb_program: u32,
        slot_count: u32,
    ) -> bool {
        let k = key16(session_id@);
        &&& self.next_xid == before.next_xid
        &&& self.inflight == before.inflight
        &&& self.channels@.dom() == before.channels@.dom().insert(k)
        &&& forall|j: u128| #[trigger]
            before.channels@.contains_key(j) && j != k ==> self.channels@[j] == before.channels@[j]
        &&& if before.channels@.contains_key(k) {
            &&& self.client_sessions == before.client_sessions
            &&& self.channels@[k] == BackchannelConn {
                state: BackchannelState::Up,
                ..before.channels@[k]
            }
        } else {
            let c = self.channels@[k];
            &&& self.has_listed(before, client_id, k)
            &&& c.is_unused(session_id, client_id, cb_program, slot_count)
            &&& c.state == BackchannelState::Up
            &&& c.wire is None
            &&& c.auth.is_null()
        }
    }

    /// Whether a session was put behind the others of its client.
    pub open spec fn has_listed(
        &self,
        before: &BackchannelManager,
        client_id: Clientid4,
        k: u128,
    ) -> bool {
        &&& self.client_sessions.of(client_id) == before.client_sessions.of(client_id).push(k)
        &&& self.client_sessions.same_but(&before.client_sessions, client_id)
        &&& self.client_sessions.lists@.dom() == before.client_sessions.lists@.dom().insert(
            client_id,
        )
    }

    proof fn wf_survives(&self, before: &BackchannelManager, k: u128, c: BackchannelConn)
        requires
            before.wf(),
            before.channels@.contains_key(k),
            self.channels@ == before.channels@.insert(k, c),
            self.client_sessions == before.client_sessions,
            c.wf(),
            c.session_id == before.channels@[k].session_id,
            c.client_id == before.channels@[k].client_id,
        ensures
            self.wf(),
    {
        assert(self.channels@.dom() =~= before.channels@.dom());
        indexed_update(before.channels@, self.channels@, self.client_sessions, Self::client());
    }

    /// The callbacks that were not answered, without those of the given sessions.
    fn forget_inflight(&mut self, sessions: &Vec<u128>)
        ensures
            final(self).channels == old(self).channels,
            final(self).client_sessions == old(self).client_sessions,
            final(self).next_xid == old(self).next_xid,
            forall|x: u32| #[trigger]
                final(self).inflight@.contains_key(x) <==> old(self).inflight@.contains_key(x)
                    && !sessions@.contains(old(self).inflight@[x]),
            forall|x: u32| #[trigger]
                final(self).inflight@.contains_key(x) ==> final(self).inflight@[x] == old(
                    self,
                ).inflight@[x],
    {
        let mut xids: Vec<u32> = Vec::new();
        let ghost ks = vstd::std_specs::iter::IteratorSpec::remaining(
            &vstd::std_specs::hash::spec_keys_iter(&self.inflight),
        );
        for x in it: self.inflight.keys()
            invariant
                it.seq() == ks,
                xids@.len() == it.index(),
                forall|i: int| 0 <= i < xids@.len() ==> xids@[i] == *ks[i],
        {
            xids.push(*x);
        }
        proof {
            assert(xids@ =~= ks.unref());
            assert forall|x: u32| xids@.contains(x) <==> self.inflight@.contains_key(x) by {
                assert(xids@.to_set().contains(x) <==> self.inflight@.dom().contains(x));
            }
        }
        let mut i: usize = 0;
        assert(xids@.take(0) =~= Seq::empty());
        while i < xids.len()
            invariant
                i <= xids.len(),
                self.channels == old(self).channels,
                self.client_sessions == old(self).client_sessions,
                self.next_xid == old(self).next_xid,
                forall|x: u32| #[trigger]
                    self.inflight@.contains_key(x) <==> old(self).inflight@.contains_key(x) && !(
                    xids@.take(i as int).contains(x) && sessions@.contains(
                        old(self).inflight@[x],
                    )),
                forall|x: u32| #[trigger]
                    self.inflight@.contains_key(x) ==> self.inflight@[x] == old(self).inflight@[x],
            decreases xids.len() - i,
        {
            let x: u32 = xids[i];
            proof {
                take_one_more(xids@, i as int);
            }
            let gone = match self.inflight.get(&x) {
                Some(k) => crate::table::listed(sessions, *k),
                None => false,
            };
            if gone {
                self.inflight.remove(&x);
            }
            i = i + 1;
        }
        assert(xids@.take(i as int) =~= xids@);
    }

    /// A session's client cannot be called back any more.
    pub fn unregister(&mut self, session_id: &Sessionid4)
        requires
            old(self).wf(),
        ensures
            final(self).wf(),
            final(self).channels@ == old(self).channels@.remove(key16(session_id@)),
            ({
                let k = key16(session_id@);
                let c = old(self).channels@[k].client_id;
                if old(self).channels@.contains_key(k) {
                    &&& final(self).client_sessions.of(c) == without(
                        old(self).client_sessions.of(c),
                        k,
                    )
                    &&& final(self).client_sessions.same_but(&old(self).client_sessions, c)
                    &&& final(self).client_sessions.lists@.dom() == old(
                        self,
                    ).client_sessions.lists@.dom()
                } else {
                    final(self).client_sessions == old(self).client_sessions
                }
            }),
            final(self).next_xid == old(self).next_xid,
            forall|x: u32| #[trigger]
                final(self).inflight@.contains_key(x) <==> old(self).inflight@.contains_key(x)
                    && old(self).inflight@[x] != key16(session_id@),
            forall|x: u32| #[trigger]
                final(self).inflight@.contains_key(x) ==> final(self).inflight@[x] == old(
                    self,
                ).inflight@[x],
    {
        let key: u128 = key_of16(session_id);
        match self.channels.remove(&key) {
            Some(conn) => {
                self.client_sessions.drop_one(conn.client_id, key);
                proof {
                    indexed_remove(
                        old(self).channels@,
                        old(self).client_sessions,
                        self.client_sessions,
                        Self::client(),
                        key,
                    );
                }
            },
            None => {
                assert(self.channels@ =~= old(self).channels@);
            },
        }
        assert(self.channels@ =~= old(self).channels@.remove(key));
        let mut gone: Vec<u128> = Vec::new();
        gone.push(key);
        self.forget_inflight(&gone);
        assert forall|x: u128| gone@.contains(x) <==> x == key by {
            if x == key {
                assert(gone@[0] == x);
            }
        }
    }

    /// A client cannot be called back any more.
    pub fn unregister_client(&mut self, client_id: Clientid4)
        requires
            old(self).wf(),
        ensures
            final(self).wf(),
            forall|k: u128| #[trigger]
                final(self).channels@.contains_key(k) <==> old(self).channels@.contains_key(k)
                    && old(self).channels@[k].client_id != client_id,
            forall|k: u128| #[trigger]
                final(self).channels@.contains_key(k) ==> final(self).channels@[k] == old(
                    self,
                ).channels@[k],
            final(self).next_xid == old(self).next_xid,
            final(self).client_sessions.of(client_id) == Seq::<u128>::empty(),
            final(self).client_sessions.same_but(&old(self).client_sessions, client_id),
            final(self).client_sessions.lists@.dom() == old(
                self,
            ).client_sessions.lists@.dom().remove(client_id),
            forall|x: u32| #[trigger]
                final(self).inflight@.contains_key(x) <==> old(self).inflight@.contains_key(x)
                    && !old(self).client_sessions.of(client_id).contains(old(self).inflight@[x]),
            forall|x: u32| #[trigger]
                final(self).inflight@.contains_key(x) ==> final(self).inflight@[x] == old(
                    self,
                ).inflight@[x],
    {
        let list = self.client_sessions.drop_all(client_id);
        let ghost idx = self.client_sessions;
        let mut i: usize = 0;
        assert(list@.take(0) =~= Seq::empty());
        while i < list.len()
            invariant
                i <= list.len(),
                self.client_sessions == idx,
                self.next_xid == old(self).next_xid,
                self.inflight == old(self).inflight,
                forall|k: u128| #[trigger]
                    self.channels@.contains_key(k) <==> old(self).channels@.contains_key(k)
                        && !list@.take(i as int).contains(k),
                forall|k: u128| #[trigger]
                    self.channels@.contains_key(k) ==> self.channels@[k] == old(self).channels@[k],
            decreases list.len() - i,
        {
            let k: u128 = list[i];
            proof {
                take_one_more(list@, i as int);
            }
            self.channels.remove(&k);
            i = i + 1;
        }
        proof {
            assert(list@.take(i as int) =~= list@);
            indexed_drop_all(
                old(self).channels@,
                self.channels@,
                old(self).client_sessions,
                self.client_sessions,
                Self::client(),
                client_id,
            );
        }
        self.forget_inflight(&list);
    }

    /// Whether a session's client can be called back.
    pub fn get_state(&self, session_id: &Sessionid4) -> (r: BackchannelState)
        ensures
            r == if self.channels@.contains_key(key16(session_id@)) {
                self.channels@[key16(session_id@)].state
            } else {
                BackchannelState::Missing
            },
    {
        let key: u128 = key_of16(session_id);
        match self.channels.get(&key) {
            Some(conn) => conn.state(),
            None => BackchannelState::Missing,
        }
    }

    /// `self` is `before` with one session's way of being called back replaced.
    pub open spec fn has_replaced(
        &self,
        before: &BackchannelManager,
        k: u128,
        c: BackchannelConn,
    ) -> bool {
        &&& self.channels@ == before.channels@.insert(k, c)
        &&& self.client_sessions == before.client_sessions
    }

    /// Callbacks of a session go out over the given connection, with the given credentials.
    pub fn attach_transport(
        &mut self,
        session_id: &Sessionid4,
        transport: u64,
        auth: opaque_auth,
    ) -> (r: Nfs4Result<()>)
        requires
            old(self).wf(),
        ensures
            final(self).wf(),
            final(self).next_xid == old(self).next_xid,
            final(self).inflight == old(self).inflight,
            if old(self).channels@.contains_key(key16(session_id@)) {
                r is Ok && final(self).has_replaced(
                    old(self),
                    key16(session_id@),
                    (BackchannelConn {
                        wire: Some(transport),
                        auth,
                        state: BackchannelState::Up,
                        ..old(self).channels@[key16(session_id@)]
                    }),
                )
            } else {
                &&& fails_with(r, Nfs4Status::BadSession)
                &&& final(self).channels@ == old(self).channels@
                &&& final(self).client_sessions == old(self).client_sessions
            },
    {
        let key: u128 = key_of16(session_id);
        match self.channels.remove(&key) {
            Some(mut conn) => {
                conn.wire = Some(transport);
                conn.auth = auth;
                conn.set_state(BackchannelState::Up);
                let ghost c = conn;
                self.channels.insert(key, conn);
                proof {
                    assert(self.channels@ =~= old(self).channels@.insert(key, c));
                    self.wf_survives(old(self), key, c);
                }
                Ok(())
            },
            None => {
                assert(self.channels@ =~= old(self).channels@);
                failure(Nfs4Status::BadSession)
            },
        }
    }

    /// Sets up a session's client to be called back over the given connection.
    pub fn bind_transport(
        &mut self,
        session_id: Sessionid4,
        client_id: Clientid4,
        cb_program: u32,
        slot_count: u32,
        transport: u64,
        auth: opaque_auth,
    ) -> (r: Nfs4Result<()>)
        requires
            old(self).wf(),
        ensures
            final(self).wf(),
            r is Ok,
            final(self).next_xid == old(self).next_xid,
            final(self).inflight == old(self).inflight,
            ({
                let k = key16(session_id@);
                let c = final(self).channels@[k];
                &&& final(self).channels@.dom() == old(self).channels@.dom().insert(k)
                &&& forall|j: u128| #[trigger]
                    old(self).channels@.contains_key(j) && j != k ==> final(self).channels@[j]
                        == old(self).channels@[j]
                &&& c.wire == Some(transport)
                &&& c.auth == auth
                &&& c.state == BackchannelState::Up
                &&& if old(self).channels@.contains_key(k) {
                    c == BackchannelConn {
                        wire: Some(transport),
                        auth,
                        state: BackchannelState::Up,
                        ..old(self).channels@[k]
                    }
                } else {
                    &&& c.is_unused(session_id, client_id, cb_program, slot_count)
                    &&& final(self).has_listed(old(self), client_id, k)
                }
                &&& old(self).channels@.contains_key(k) ==> final(self).client_sessions == old(
                    self,
                ).client_sessions
            }),
    {
        let key: u128 = key_of16(&session_id);
        if !self.channels.contains_key(&key) {
            self.register(session_id, client_id, cb_program, slot_count);
        }
        let r = self.attach_transport(&session_id, transport, auth);
        assert(self.channels@.dom() =~= old(self).channels@.dom().insert(key));
        r
    }

    /// What becomes of the manager when the callback `xid` is answered; `down` where the answer
    /// says that the client cannot be called back.
    pub open spec fn has_completed(
        &self,
        before: &BackchannelManager,
        xid: u32,
        down: bool,
        r: Option<CallbackOp>,
    ) -> bool {
        &&& self.inflight@ == before.inflight@.remove(xid)
        &&& self.next_xid == before.next_xid
        &&& self.client_sessions == before.client_sessions
        &&& if before.inflight@.contains_key(xid) && before.channels@.contains_key(
            before.inflight@[xid],
        ) && before.channels@[before.inflight@[xid]].inflight@.contains_key(xid) {
            let k = before.inflight@[xid];
            let c = before.channels@[k];
            let call = c.inflight@[xid];
            let d = self.channels@[k];
            &&& r == Some(call.op)
            &&& self.channels@.dom() == before.channels@.dom()
            &&& forall|j: u128| #[trigger]
                before.channels@.contains_key(j) && j != k ==> self.channels@[j]
                    == before.channels@[j]
            &&& d.slots@ == BackchannelConn::freed(c.slots@, call.slot_id)
            &&& d.inflight@ == c.inflight@.remove(xid)
            &&& d.same_rest(
                &BackchannelConn {
                    state: if down {
                        BackchannelState::Down
                    } else {
                        c.state
                    },
                    ..c
                },
            )
        } else {
            r is None && self.same_channels(before)
        }
    }

    /// The same ways of calling back.
    pub open spec fn same_channels(&self, before: &BackchannelManager) -> bool {
        &&& self.channels@.dom() == before.channels@.dom()
        &&& forall|j: u128| #[trigger]
            before.channels@.contains_key(j) ==> {
                &&& self.channels@[j].same_rest(&before.channels@[j])
                &&& self.channels@[j].slots@ == before.channels@[j].slots@
                &&& self.channels@[j].inflight@ == before.channels@[j].inflight@
            }
    }

    fn complete(&mut self, xid: u32, down: bool) -> (r: Option<CallbackOp>)
        requires
            old(self).wf(),
        ensures
            final(self).wf(),
            final(self).has_completed(old(self), xid, down, r),
    {
        let key: u128 = match self.inflight.remove(&xid) {
            Some(k) => k,
            None => {
                assert(self.inflight@ =~= old(self).inflight@.remove(xid));
                return None;
            },
        };
        let mut conn = match self.channels.remove(&key) {
            Some(conn) => conn,
            None => {
                assert(self.channels@ =~= old(self).channels@);
                return None;
            },
        };
        let r = conn.release_call(xid);
        if r.is_some() && down {
            conn.set_state(BackchannelState::Down);
        }
        let ghost c = conn;
        self.channels.insert(key, conn);
        proof {
            assert(self.channels@ =~= old(self).channels@.insert(key, c));
            assert(self.channels@.dom() =~= old(self).channels@.dom());
            self.wf_survives(old(self), key, c);
            if !old(self).channels@[key].inflight@.contains_key(xid) {
                assert(c.inflight@ =~= old(self).channels@[key].inflight@);
            }
        }
        r
    }

    /// A callback was answered. Where `ok` is not set, the client counts as down.
    pub fn complete_reply(&mut self, xid: u32, ok: bool) -> (r: Option<CallbackOp>)
        requires
            old(self).wf(),
        ensures
            final(self).wf(),
            final(self).has_completed(old(self), xid, !ok, r),
    {
        self.complete(xid, !ok)
    }

    /// A callback was answered with results.
    pub fn complete_compound_reply(&mut self, xid: u32) -> (r: Option<CallbackOp>)
        requires
            old(self).wf(),
        ensures
            final(self).wf(),
            final(self).has_completed(old(self), xid, false, r),
    {
        self.complete(xid, false)
    }

    /// What is in the way of calling a client back, if anything.
    pub open spec fn obstacle(&self, client_id: Clientid4) -> Option<Nfs4Status> {
        if !self.client_sessions.lists@.contains_key(client_id) {
            Some(Nfs4Status::BadSession)
        } else {
            match self.route(client_id) {
                None => Some(Nfs4Status::CbPathDown),
                Some(k) => {
                    let c = self.channels@[k];
                    if c.wire is Some && free_slot(c.slots@, 0) is None {
                        Some(Nfs4Status::BackChanBusy)
                    } else if c.wire is Some && !c.auth.encodable() {
                        Some(Nfs4Status::Io)
                    } else {
                        None
                    }
                },
            }
        }
    }

    /// Whether calling the client back with `op` means to send something over a connection.
    pub open spec fn goes_out(&self, client_id: Clientid4) -> bool {
        self.route(client_id) matches Some(k) && self.channels@[k].wire is Some
    }

    /// What calling a client back comes to when nothing is in the way.
    pub open spec fn has_sent(
        &self,
        before: &BackchannelManager,
        client_id: Clientid4,
        op: CallbackOp,
        fh: Nfs4FileHandle,
        r: Option<Outbound>,
    ) -> bool {
        let k = before.route(client_id)->Some_0;
        let c = before.channels@[k];
        let d = self.channels@[k];
        &&& self.channels@.dom() == before.channels@.dom()
        &&& forall|j: u128| #[trigger]
            before.channels@.contains_key(j) && j != k ==> self.channels@[j] == before.channels@[j]
        &&& self.client_sessions == before.client_sessions
        &&& d.session_id == c.session_id
        &&& d.client_id == c.client_id
        &&& d.state == c.state
        &&& d.cb_program == c.cb_program
        &&& d.wire == c.wire
        &&& d.auth == c.auth
        &&& d.queue@.len() == c.queue@.len() + 1
        &&& d.queue@.drop_last() == c.queue@
        &&& d.queue@.last().session_id == c.session_id
        &&& op.same(&d.queue@.last().op)
        &&& d.queue@.last().file_handle == fh
        &&& if c.wire is Some {
            let i = free_slot(c.slots@, 0)->Some_0;
            let slot = c.slots@[i];
            &&& self.next_xid == before.next_xid.wrapping_add(1)
            &&& self.inflight@ == before.inflight@.insert(before.next_xid, k)
            &&& d.slots@ == c.slots@.update(
                i,
                BackchannelSlot {
                    sequence: next_sequence(slot.sequence),
                    in_use: true,
                    ..slot
                },
            )
            &&& d.inflight@ == c.inflight@.insert(
                before.next_xid,
                d.inflight@[before.next_xid],
            )
            &&& d.inflight@[before.next_xid].slot_id == slot.slot_id
            &&& op.same(&d.inflight@[before.next_xid].op)
            &&& r is Some
            &&& r->Some_0.transport == c.wire->Some_0
            &&& r->Some_0.xid == before.next_xid
            &&& r->Some_0.bytes@ == callback_bytes(
                &c,
                before.next_xid,
                slot.slot_id,
                slot.sequence,
                c.highest(),
                op->Recall_stateid,
                op->Recall_truncate,
                fh@,
            )
        } else {
            &&& self.next_xid == before.next_xid
            &&& self.inflight@ == before.inflight@
            &&& d.slots@ == c.slots@
            &&& d.inflight@ == c.inflight@
            &&& r is None
        }
    }

    /// What is left of a callback whose credentials could not be written: its slot is free again,
    /// but its numbers are used up.
    pub open spec fn has_dropped(&self, before: &BackchannelManager, client_id: Clientid4) -> bool {
        let k = before.route(client_id)->Some_0;
        let c = before.channels@[k];
        let d = self.channels@[k];
        let i = free_slot(c.slots@, 0)->Some_0;
        &&& self.next_xid == before.next_xid.wrapping_add(1)
        &&& self.inflight@ == before.inflight@.remove(before.next_xid)
        &&& self.client_sessions == before.client_sessions
        &&& self.channels@.dom() == before.channels@.dom()
        &&& forall|j: u128| #[trigger]
            before.channels@.contains_key(j) && j != k ==> self.channels@[j] == before.channels@[j]
        &&& d.same_rest(&c)
        &&& d.slots@ == c.slots@.update(
            i,
            BackchannelSlot { sequence: next_sequence(c.slots@[i].sequence), ..c.slots@[i] },
        )
        &&& d.inflight@ == c.inflight@.remove(before.next_xid)
    }

    /// Calls a client back over the first of its sessions that is up. What is to be sent over the
    /// connection of that session, if it has one, is handed out; the callback also stands in the
    /// queue of the session. Only asking for a delegation back can go out over a connection.
    pub fn send_callback(
        &mut self,
        client_id: Clientid4,
        op: CallbackOp,
        file_handle: Nfs4FileHandle,
    ) -> (r: Nfs4Result<Option<Outbound>>)
        requires
            old(self).wf(),
            old(self).goes_out(client_id) ==> op is Recall,
        ensures
            final(self).wf(),
            match old(self).obstacle(client_id) {
                Some(st) => fails_with(r, st),
                None => r is Ok && final(self).has_sent(
                    old(self),
                    client_id,
                    op,
                    file_handle,
                    r->Ok_0,
                ),
            },
            match old(self).obstacle(client_id) {
                Some(Nfs4Status::Io) => final(self).has_dropped(old(self), client_id),
                Some(_) => *final(self) == *old(self),
                None => true,
            },
    {
        if self.client_sessions.get(client_id).is_none() {
            return failure(Nfs4Status::BadSession);
        }
        let key: u128 = match self.find_route(client_id) {
            Some(k) => k,
            None => {
                return failure(Nfs4Status::CbPathDown);
            },
        };
        let busy = match self.channels.get(&key) {
            Some(conn) => conn.wire.is_some() && !conn.has_free_slot(),
            None => false,
        };
        if busy {
            return failure(Nfs4Status::BackChanBusy);
        }
        let mut conn = match self.channels.remove(&key) {
            Some(conn) => conn,
            None => {
                return failure(Nfs4Status::CbPathDown);
            },
        };
        let ghost c = conn;
        proof {
            free_slot_is_free(c.slots@, 0);
        }
        let session_id = conn.session_id;
        let mut out: Option<Outbound> = None;
        if let Some(transport) = conn.wire {
            let xid: u32 = self.next_xid;
            self.next_xid = xid.wrapping_add(1);
            let (slot_id, sequence, highest) = match conn.reserve_call() {
                Some(t) => t,
                None => (0, 0, 0),
            };
            self.inflight.insert(xid, key);
            conn.inflight.insert(xid, InflightCall { slot_id, op: op.clone() });
            let encoded = match &op {
                CallbackOp::Recall { stateid, truncate } => encode_wire_callback(
                    &conn,
                    xid,
                    slot_id,
                    sequence,
                    highest,
                    stateid,
                    *truncate,
                    &file_handle,
                ),
                _ => failure(Nfs4Status::Io),
            };
            match encoded {
                Ok(bytes) => {
                    out = Some(Outbound { transport, xid, bytes });
                },
                Err(e) => {
                    self.inflight.remove(&xid);
                    let _ = conn.release_call(xid);
                    let ghost d = conn;
                    self.channels.insert(key, conn);
                    proof {
                        assert(self.channels@ =~= old(self).channels@.insert(key, d));
                        assert(self.channels@.dom() =~= old(self).channels@.dom());
                        assert(self.inflight@ =~= old(self).inflight@.remove(xid));
                        assert(d.inflight@ =~= c.inflight@.remove(xid));
                        let i = free_slot(c.slots@, 0)->Some_0;
                        assert(d.slots@ =~= c.slots@.update(
                            i,
                            BackchannelSlot {
                                sequence: next_sequence(c.slots@[i].sequence),
                                ..c.slots@[i]
                            },
                        ));
                        self.wf_survives(old(self), key, d);
                    }
                    return Err(e);
                },
            }
        }
        let ghost q = conn.queue@;
        conn.queue.push(CallbackTask { session_id, op: op.clone(), file_handle });
        let ghost d = conn;
        self.channels.insert(key, conn);
        proof {
            assert(d.queue@.drop_last() =~= q);
            assert(self.channels@ =~= old(self).channels@.insert(key, d));
            assert(self.channels@.dom() =~= old(self).channels@.dom());
            self.wf_survives(old(self), key, d);
        }
        Ok(out)
    }

    /// Asks a client to give a delegation back.
    pub fn recall_delegation(
        &mut self,
        client_id: Clientid4,
        stateid: Stateid4,
        file_handle: Nfs4FileHandle,
        truncate: bool,
    ) -> (r: Nfs4Result<Option<Outbound>>)
        requires
            old(self).wf(),
        ensures
            final(self).wf(),
            match old(self).obstacle(client_id) {
                Some(st) => fails_with(r, st),
                None => r is Ok && final(self).has_sent(
                    old(self),
                    client_id,
                    (CallbackOp::Recall { stateid, truncate }),
                    file_handle,
                    r->Ok_0,
                ),
            },
            match old(self).obstacle(client_id) {
                Some(Nfs4Status::Io) => final(self).has_dropped(old(self), client_id),
                Some(_) => *final(self) == *old(self),
                None => true,
            },
    {
        self.send_callback(client_id, CallbackOp::Recall { stateid, truncate }, file_handle)
    }

    /// Picks up the oldest callback that is queued for a session.
    pub fn try_recv(&mut self, session_id: &Sessionid4) -> (r: Option<CallbackTask>)
        requires
            old(self).wf(),
        ensures
            final(self).wf(),
            final(self).next_xid == old(self).next_xid,
            final(self).inflight == old(self).inflight,
            final(self).client_sessions == old(self).client_sessions,
            final(self).channels@.dom() == old(self).channels@.dom(),
            forall|j: u128| #[trigger]
                old(self).channels@.contains_key(j) && j != key16(session_id@)
                    ==> final(self).channels@[j] == old(self).channels@[j],
            ({
                let k = key16(session_id@);
                let c = old(self).channels@[k];
                if old(self).channels@.contains_key(k) && c.queue@.len() > 0 {
                    &&& r == Some(c.queue@[0])
                    &&& final(self).channels@[k].queue@ == c.queue@.skip(1)
                    &&& final(self).channels@[k] == BackchannelConn {
                        queue: final(self).channels@[k].queue,
                        ..c
                    }
                } else {
                    r is None && final(self).channels@ == old(self).channels@
                }
            }),
    {
        let key: u128 = key_of16(session_id);
        match self.channels.remove(&key) {
            None => {
                assert(self.channels@ =~= old(self).channels@);
                None
            },
            Some(mut conn) => {
                let mut r: Option<CallbackTask> = None;
                if conn.queue.len() > 0 {
                    r = Some(conn.queue.remove(0));
                    assert(conn.queue@ =~= old(self).channels@[key].queue@.skip(1));
                }
                let ghost c = conn;
                self.channels.insert(key, conn);
                proof {
                    assert(self.channels@ =~= old(self).channels@.insert(key, c));
                    assert(self.channels@.dom() =~= old(self).channels@.dom());
                    if r is None {
                        assert(self.channels@ =~= old(self).channels@);
                    }
                    self.wf_survives(old(self), key, c);
                }
                r
            },
        }
    }

    /// A session's client cannot be called back for the time being.
    pub fn mark_down(&mut self, session_id: &Sessionid4)
        requires
            old(self).wf(),
        ensures
            final(self).wf(),
            final(self).next_xid == old(self).next_xid,
            final(self).inflight == old(self).inflight,
            final(self).client_sessions == old(self).client_sessions,
            final(self).channels@ == if old(self).channels@.contains_key(key16(session_id@)) {
                old(self).channels@.insert(
                    key16(session_id@),
                    BackchannelConn {
                        state: BackchannelState::Down,
                        ..old(self).channels@[key16(session_id@)]
                    },
                )
            } else {
                old(self).channels@
            },
    {
        let key: u128 = key_of16(session_id);
        match self.channels.remove(&key) {
            None => {
                assert(self.channels@ =~= old(self).channels@);
            },
            Some(mut conn) => {
                conn.set_state(BackchannelState::Down);
                let ghost c = conn;
                self.channels.insert(key, conn);
                proof {
                    assert(self.channels@ =~= old(self).channels@.insert(key, c));
                    self.wf_survives(old(self), key, c);
                }
            },
        }
    }
}

impl BackchannelConn {
    /// Whether a slot is free.
    pub fn has_free_slot(&self) -> (r: bool)
        ensures
            r == (free_slot(self.slots@, 0) is Some),
    {
        let mut i: usize = 0;
        while i < self.slots.len()
            invariant
                i <= self.slots.len(),
                free_slot(self.slots@, 0) == free_slot(self.slots@, i as int),
            decreases self.slots.len() - i,
        {
            if !self.slots[i].in_use {
                return true;
            }
            i = i + 1;
        }
        false
    }
}

proof fn first_up_is_known(list: Seq<u128>, channels: Map<u128, BackchannelConn>, i: int)
    ensures
        first_up(list, channels, i) matches Some(k) ==> channels.contains_key(k),
    decreases list.len() - i,
{
    if 0 <= i < list.len() {
        first_up_is_known(list, channels, i + 1);
    }
}

/// A callback that ends is the one that was sent under its number, and its slot is free again.
pub proof fn law_callback_ends_under_its_number(
    before: BackchannelManager,
    waiting: BackchannelManager,
    after: BackchannelManager,
    client_id: Clientid4,
    op: CallbackOp,
    fh: Nfs4FileHandle,
    message: Outbound,
    down: bool,
    r: Option<CallbackOp>,
)
    requires
        before.wf(),
        before.obstacle(client_id) is None,
        waiting.has_sent(&before, client_id, op, fh, Some(message)),
        after.has_completed(&waiting, message.xid, down, r),
    ensures
        r is Some,
        op.same(&r->Some_0),
        before.route(client_id) matches Some(k) && free_slot(before.channels@[k].slots@, 0)
            matches Some(i) && after.channels@.contains_key(k) && !after.channels@[k].slots@[i].in_use,
{
    let k = before.route(client_id)->Some_0;
    first_up_is_known(before.client_sessions.of(client_id), before.channels@, 0);
    assert(before.channels@.contains_key(k));
    let c = before.channels@[k];
    free_slot_is_free(c.slots@, 0);
    let i = free_slot(c.slots@, 0)->Some_0;
    assert(c.wf());
    assert(c.slots@[i].slot_id == i);
}

} // verus!
