//! Messages on a connection: how they are cut into fragments, and who they are for.

use crate::backchannel::{law_callback_ends_under_its_number, CallbackOp, Outbound};
use crate::bytes::{be32_at, need, pad_len, Reader, XdrError};
use crate::compound::CompoundHandler;
use crate::delegation::{Delegation, DelegationManager};
use crate::error::Nfs4Status;
use crate::portmap::{self, handle_portmap, portmap_answer};
use crate::request::RunStep;
use crate::rpc::{
    accept_body, accepted_bytes, auth_flavor, auth_unix, call_body, mismatch_info, put_accepted,
    rejected_reply, reply_body, rpc_body, rpc_msg, rpc_vers_mismatch,
};
use crate::text::text_bytes;
use crate::time::Duration;
use crate::transaction::TransactionTracker;
use crate::types::{Fileid4, Nfs4FileHandle};
use crate::xdr::{Decode, XDR};
use vstd::prelude::*;

verus! {

/// The number of the file protocol among the programs.
pub const NFS_PROGRAM: u32 = 100003;

/// The number of the mount protocol among the programs.
pub const MOUNT_PROGRAM: u32 = 100005;

/// The longest message.
pub const MAX_FRAGMENT_SIZE: usize = 0x800_0000;

/// The longest tag of an answer to a callback.
pub const MAX_CALLBACK_TAG_LEN: u32 = 256;

// ---------------------------------------------------------------------------
// Fragments
// ---------------------------------------------------------------------------

/// A part of a message.
#[derive(Clone, Copy, Debug, PartialEq, Eq, Structural)]
pub struct Fragment {
    pub len: usize,
    /// Whether the message ends with it.
    pub last: bool,
}

/// Why a fragment is refused.
#[derive(Clone, Copy, Debug, PartialEq, Eq, Structural)]
pub enum FragmentFault {
    /// It is too long.
    Fragment,
    /// The message gets too long by it.
    Message,
}

/// The fragment that a mark announces: its length, and in the highest bit whether it is the last.
pub open spec fn announced(mark: u32) -> Fragment {
    if mark >= 0x8000_0000 {
        Fragment { len: (mark - 0x8000_0000) as usize, last: true }
    } else {
        Fragment { len: mark as usize, last: false }
    }
}

/// Reads the mark of a fragment of a message of which `have` bytes are there.
pub fn read_mark(mark: u32, have: usize) -> (r: Result<Fragment, FragmentFault>)
    ensures
        r == if announced(mark).len > MAX_FRAGMENT_SIZE {
            Err::<Fragment, FragmentFault>(FragmentFault::Fragment)
        } else if have + announced(mark).len > MAX_FRAGMENT_SIZE {
            Err::<Fragment, FragmentFault>(FragmentFault::Message)
        } else {
            Ok::<Fragment, FragmentFault>(announced(mark))
        },
{
    let last = mark >= 0x8000_0000;
    let len: usize = if last {
        (mark - 0x8000_0000) as usize
    } else {
        mark as usize
    };
    if len > MAX_FRAGMENT_SIZE {
        return Err(FragmentFault::Fragment);
    }
    if have > MAX_FRAGMENT_SIZE || have + len > MAX_FRAGMENT_SIZE {
        return Err(FragmentFault::Message);
    }
    Ok(Fragment { len, last })
}

/// The mark of a message that is sent as one fragment. One that is too long cannot be sent.
pub fn write_mark(len: usize) -> (r: Option<u32>)
    ensures
        r == if len < 0x8000_0000 {
            Some((len + 0x8000_0000) as u32)
        } else {
            None
        },
        r is Some ==> announced(r->Some_0) == (Fragment { len, last: true }),
{
    if len >= 0x8000_0000 {
        return None;
    }
    Some(len as u32 + 0x8000_0000)
}

// ---------------------------------------------------------------------------
// Answers to callbacks
// ---------------------------------------------------------------------------

/// How many bytes a tag takes.
pub open spec fn tag_end(s: Seq<u8>) -> Result<nat, XdrError> {
    match need(s, 4) {
        Err(e) => Err(e),
        Ok(_) => if be32_at(s) > MAX_CALLBACK_TAG_LEN {
            Err(XdrError::InvalidData)
        } else {
            need(s, 4 + be32_at(s) as nat + pad_len(be32_at(s) as nat))
        },
    }
}

/// Passes over a tag.
fn skip_opaque(input: &mut Reader<'_>) -> (r: Result<(), XdrError>)
    ensures
        match tag_end(old(input)@) {
            Ok(n) => r is Ok && n <= old(input)@.len() && final(input)@ == old(input)@.skip(
                n as int,
            ),
            Err(e) => r == Err::<(), XdrError>(e),
        },
{
    broadcast use crate::bytes::skip_skip;

    let len: u32 = input.read_u32()?;
    if len > MAX_CALLBACK_TAG_LEN {
        return Err(XdrError::InvalidData);
    }
    let pad: u32 = (4 - len % 4) % 4;
    input.skip_bytes((len + pad) as usize)
}

/// The number of the operation that names a slot.
pub const CB_SEQUENCE: u32 = 11;

/// The number of the operation that recalls a delegation.
pub const CB_RECALL: u32 = 4;

/// Whether the result at the start of `s` is one of success.
pub open spec fn went_well(s: Seq<u8>) -> bool {
    Nfs4Status::of_code(be32_at(s.skip(4))) == Nfs4Status::Success
}

/// How many bytes a result takes. Behind that of naming a slot stands more.
pub open spec fn result_end(s: Seq<u8>) -> Result<nat, XdrError> {
    match need(s, 8) {
        Err(e) => Err(e),
        Ok(_) => if be32_at(s) == CB_SEQUENCE && went_well(s) {
            need(s, 40)
        } else {
            Ok(8)
        },
    }
}

/// How many bytes results take.
pub open spec fn results_end(s: Seq<u8>, count: nat) -> Result<nat, XdrError>
    decreases count,
{
    if count == 0 {
        Ok(0)
    } else {
        match results_end(s, (count - 1) as nat) {
            Err(e) => Err(e),
            Ok(n) => match result_end(s.skip(n as int)) {
                Err(e) => Err(e),
                Ok(m) => Ok(n + m),
            },
        }
    }
}

/// Whether the last of the results of an operation is one of success.
pub open spec fn last_went_well(s: Seq<u8>, count: nat, op: u32) -> bool
    decreases count,
{
    if count == 0 {
        false
    } else {
        let t = s.skip(results_end(s, (count - 1) as nat)->Ok_0 as int);
        if be32_at(t) == op {
            went_well(t)
        } else {
            last_went_well(s, (count - 1) as nat, op)
        }
    }
}

proof fn results_fail(s: Seq<u8>, i: nat, count: nat)
    requires
        i <= count,
        results_end(s, i) is Err,
    ensures
        results_end(s, count) == results_end(s, i),
    decreases count,
{
    if i < count {
        results_fail(s, i, (count - 1) as nat);
    }
}

/// What a client has answered to a callback.
#[derive(Clone, Copy, Debug)]
pub struct CallbackResults {
    pub status: Nfs4Status,
    pub seq_ok: bool,
    pub recall_ok: bool,
}

/// The answer to a callback: a status, a tag, and the result of each operation.
pub open spec fn callback_results(s: Seq<u8>) -> Result<CallbackResults, XdrError> {
    match need(s, 4) {
        Err(e) => Err(e),
        Ok(_) => match tag_end(s.skip(4)) {
            Err(e) => Err(e),
            Ok(n) => {
                let t = s.skip(4 + n as int);
                match need(t, 4) {
                    Err(e) => Err(e),
                    Ok(_) => {
                        let u = t.skip(4);
                        let count = be32_at(t) as nat;
                        match results_end(u, count) {
                            Err(e) => Err(e),
                            Ok(_) => Ok(
                                CallbackResults {
                                    status: Nfs4Status::of_code(be32_at(s)),
                                    seq_ok: last_went_well(u, count, CB_SEQUENCE),
                                    recall_ok: last_went_well(u, count, CB_RECALL),
                                },
                            ),
                        }
                    },
                }
            },
        },
    }
}

/// Passes over a result, and tells what it is of and whether it is one of success.
fn read_result(input: &mut Reader<'_>) -> (r: Result<(u32, bool), XdrError>)
    ensures
        match result_end(old(input)@) {
            Ok(n) => {
                &&& r is Ok
                &&& r->Ok_0.0 == be32_at(old(input)@)
                &&& r->Ok_0.1 == went_well(old(input)@)
                &&& n <= old(input)@.len()
                &&& final(input)@ == old(input)@.skip(n as int)
            },
            Err(e) => r == Err::<(u32, bool), XdrError>(e),
        },
{
    broadcast use crate::bytes::skip_skip;

    let op: u32 = input.read_u32()?;
    let status = Nfs4Status::decode(input)?;
    let ok = status == Nfs4Status::Success;
    if op == CB_SEQUENCE && ok {
        input.skip_bytes(32)?;
    }
    Ok((op, ok))
}

/// Reads the answer to a callback.
pub fn read_callback_results(input: &mut Reader<'_>) -> (r: Result<CallbackResults, XdrError>)
    ensures
        r == callback_results(old(input)@),
{
    broadcast use crate::bytes::skip_skip;

    let ghost s = input@;
    let status = Nfs4Status::decode(input)?;
    skip_opaque(input)?;
    let ghost t = input@;
    let count: u32 = input.read_u32()?;
    let ghost u = input@;
    let mut seq_ok = false;
    let mut recall_ok = false;
    let mut i: u32 = 0;
    assert(u.skip(0) =~= u);
    while i < count
        invariant
            i <= count,
            results_end(u, i as nat) matches Ok(n) && n <= u.len() && input@ == u.skip(n as int),
            seq_ok == last_went_well(u, i as nat, CB_SEQUENCE),
            recall_ok == last_went_well(u, i as nat, CB_RECALL),
            callback_results(s) is Err <==> results_end(u, count as nat) is Err,
            callback_results(s) is Err ==> callback_results(s)->Err_0 == results_end(
                u,
                count as nat,
            )->Err_0,
            s == old(input)@,
        decreases count - i,
    {
        let ghost n = results_end(u, i as nat)->Ok_0;
        match read_result(input) {
            Err(e) => {
                proof {
                    results_fail(u, (i + 1) as nat, count as nat);
                }
                return Err(e);
            },
            Ok((op, ok)) => {
                if op == CB_SEQUENCE {
                    seq_ok = ok;
                }
                if op == CB_RECALL {
                    recall_ok = ok;
                }
            },
        }
        i += 1;
    }
    Ok(CallbackResults { status, seq_ok, recall_ok })
}

/// Whether a reply says that the call went well.
pub open spec fn is_success(reply: reply_body) -> bool {
    reply matches reply_body::MSG_ACCEPTED(a) && a.reply_data == accept_body::SUCCESS
}

/// Whether an answer to a callback does not say what has come of it.
pub open spec fn is_unreadable(reply: reply_body, s: Seq<u8>) -> bool {
    !is_success(reply) || callback_results(s) is Err
}

/// Whether a client has done all that it was called for.
pub open spec fn all_done(reply: reply_body, s: Seq<u8>) -> bool {
    &&& is_success(reply)
    &&& callback_results(s) matches Ok(c) && c.status == Nfs4Status::Success && c.seq_ok
        && c.recall_ok
}

impl CompoundHandler {
    /// What the answer to a callback comes to: the slot is free again. Where the answer cannot be
    /// read, the client counts as down; where a recall has failed, it counts as not made.
    pub open spec fn has_taken_reply(
        &self,
        before: &CompoundHandler,
        s: Seq<u8>,
        xid: u32,
        reply: reply_body,
    ) -> bool {
        &&& *self == CompoundHandler {
            backchannel: self.backchannel,
            delegations: self.delegations,
            ..*before
        }
        &&& exists|op: Option<CallbackOp>|
            {
                &&& #[trigger] self.backchannel.has_completed(
                    &before.backchannel,
                    xid,
                    is_unreadable(reply, s),
                    op,
                )
                &&& match op {
                    Some(CallbackOp::Recall { stateid, .. }) => if all_done(reply, s) {
                        self.delegations == before.delegations
                    } else {
                        self.delegations.has_dropped_recall(&before.delegations, stateid)
                    },
                    _ => self.delegations == before.delegations,
                }
            }
    }

    /// What it comes to that a callback could not be sent: the slot is free again, and a recall
    /// counts as not made, so that it can be tried again.
    pub open spec fn has_failed_to_send(&self, before: &CompoundHandler, xid: u32) -> bool {
        &&& *self == CompoundHandler {
            backchannel: self.backchannel,
            delegations: self.delegations,
            ..*before
        }
        &&& exists|op: Option<CallbackOp>|
            {
                &&& #[trigger] self.backchannel.has_completed(&before.backchannel, xid, false, op)
                &&& match op {
                    Some(CallbackOp::Recall { stateid, .. }) => self.delegations.has_dropped_recall(
                        &before.delegations,
                        stateid,
                    ),
                    _ => self.delegations == before.delegations,
                }
            }
    }

    /// Takes back a callback that could not be sent.
    pub fn callback_not_sent(&mut self, xid: u32)
        requires
            old(self).wf(),
        ensures
            final(self).wf(),
            final(self).has_failed_to_send(old(self), xid),
    {
        let ghost before = *self;
        let op = self.backchannel.complete_compound_reply(xid);
        assert(self.backchannel.has_completed(&before.backchannel, xid, false, op));
        if let Some(CallbackOp::Recall { stateid, .. }) = op {
            self.delegations.handle_recall_result(&stateid, false);
        }
    }

    /// Takes the answer to a callback.
    pub fn handle_callback_reply(&mut self, input: &mut Reader<'_>, xid: u32, reply: &reply_body)
        requires
            old(self).wf(),
        ensures
            final(self).wf(),
            final(self).has_taken_reply(old(self), old(input)@, xid, *reply),
    {
        let ghost before = *self;
        let rpc_ok = match reply {
            reply_body::MSG_ACCEPTED(a) => match a.reply_data {
                accept_body::SUCCESS => true,
                _ => false,
            },
            _ => false,
        };
        let mut done = false;
        let mut readable = false;
        if rpc_ok {
            if let Ok(c) = read_callback_results(input) {
                readable = true;
                done = c.status == Nfs4Status::Success && c.seq_ok && c.recall_ok;
            }
        }
        let op = if readable {
            self.backchannel.complete_compound_reply(xid)
        } else {
            self.backchannel.complete_reply(xid, false)
        };
        assert(readable == !is_unreadable(*reply, old(input)@));
        assert(done == all_done(*reply, old(input)@));
        assert(self.backchannel.has_completed(
            &before.backchannel,
            xid,
            is_unreadable(*reply, old(input)@),
            op,
        ));
        if let Some(CallbackOp::Recall { stateid, .. }) = op {
            if !done {
                self.delegations.handle_recall_result(&stateid, false);
            }
        }
    }
}

/// A recall that could not be sent can be made again: the delegation is as it was, but that no
/// recall is under way, and no other delegation has changed.
pub proof fn law_unsent_recall_can_be_made_again(
    before: CompoundHandler,
    recalling: CompoundHandler,
    after: CompoundHandler,
    now: Duration,
    fileid: Fileid4,
    fh: Nfs4FileHandle,
    message: Outbound,
)
    requires
        before.wf(),
        before.delegations.paired(),
        recalling.delegations.has_recalled(
            &before.delegations,
            now,
            fileid,
            fh,
            false,
            &before.backchannel,
            &recalling.backchannel,
            Ok(Some(message)),
        ),
        after.has_failed_to_send(&recalling, message.xid),
    ensures
        before.delegations.of(fileid) is Some,
        after.delegations.delegations@ == before.delegations.delegations@.insert(
            fileid,
            (Delegation {
                recall_initiated: false,
                recall_time: None,
                ..before.delegations.of(fileid)->Some_0
            }),
        ),
{
    let d = before.delegations.of(fileid)->Some_0;
    let recall = CallbackOp::Recall { stateid: d.stateid, truncate: false };
    let op = choose|op: Option<CallbackOp>|
        {
            &&& #[trigger] after.backchannel.has_completed(
                &recalling.backchannel,
                message.xid,
                false,
                op,
            )
            &&& match op {
                Some(CallbackOp::Recall { stateid, .. }) => after.delegations.has_dropped_recall(
                    &recalling.delegations,
                    stateid,
                ),
                _ => after.delegations == recalling.delegations,
            }
        };
    assert(after.backchannel.has_completed(&recalling.backchannel, message.xid, false, op));
    assert(op is Some && recall.same(&op->Some_0)) by {
        law_callback_ends_under_its_number(
            before.backchannel,
            recalling.backchannel,
            after.backchannel,
            d.clientid,
            recall,
            fh,
            message,
            false,
            op,
        );
    }
    recall_is_dropped(
        before.delegations,
        recalling.delegations,
        after.delegations,
        fileid,
        now,
    );
}

proof fn recall_is_dropped(
    before: DelegationManager,
    recalling: DelegationManager,
    after: DelegationManager,
    fileid: Fileid4,
    now: Duration,
)
    requires
        before.wf(),
        before.paired(),
        before.of(fileid) is Some,
        recalling.stateid_to_file == before.stateid_to_file,
        recalling.delegations@ == before.delegations@.insert(
            fileid,
            (Delegation {
                recall_initiated: true,
                recall_time: Some(now),
                ..before.of(fileid)->Some_0
            }),
        ),
        after.has_dropped_recall(&recalling, before.of(fileid)->Some_0.stateid),
    ensures
        after.delegations@ == before.delegations@.insert(
            fileid,
            (Delegation {
                recall_initiated: false,
                recall_time: None,
                ..before.of(fileid)->Some_0
            }),
        ),
{
    assert(before.delegations@.contains_key(fileid));
    assert(recalling.named(before.of(fileid)->Some_0.stateid) == recalling.of(fileid));
    assert(after.delegations@ =~= before.delegations@.insert(
        fileid,
        (Delegation {
            recall_initiated: false,
            recall_time: None,
            ..before.of(fileid)->Some_0
        }),
    ));
}

// ---------------------------------------------------------------------------
// Messages
// ---------------------------------------------------------------------------

/// What a message comes to.
pub enum Received<'a> {
    /// A call of the file protocol that runs.
    Running { xid: u32, step: RunStep<'a> },
    /// A call that is answered at once.
    Reply { bytes: Vec<u8> },
    /// Nothing is sent back.
    Nothing,
    /// The message cannot be read.
    Failed { fault: XdrError },
    /// A call of the mount protocol, or of an older version of the file protocol.
    Elsewhere { xid: u32, call: call_body, auth: auth_unix, input: Reader<'a> },
}

/// Who makes a call: where nothing is said, the superuser, of no machine and in no other groups.
pub open spec fn is_caller(call: call_body, auth: auth_unix) -> bool {
    if call.cred.flavor == auth_flavor::AUTH_UNIX {
        auth.decodes_to(call.cred.body@)
    } else {
        &&& auth.stamp == 0
        &&& auth.machinename@ == Seq::<u8>::empty()
        &&& auth.uid == 0
        &&& auth.gid == 0
        &&& auth.gids@ == Seq::<u32>::empty()
    }
}

/// The answer to one who speaks another version.
pub open spec fn vers_mismatch(xid: u32) -> rpc_msg {
    rpc_msg {
        xid,
        body: rpc_body::REPLY(
            reply_body::MSG_DENIED(
                rejected_reply::RPC_MISMATCH(mismatch_info { low: 0, high: 0 }),
            ),
        ),
    }
}

/// The handler of the file protocol, and the calls that are remembered.
pub struct RpcServer {
    pub handler: CompoundHandler,
    pub tracker: TransactionTracker,
}

impl RpcServer {
    /// Whether both parts are what they have to be.
    pub open spec fn wf(&self) -> bool {
        self.handler.wf() && self.tracker.wf()
    }

    /// What a new call comes to.
    pub open spec fn has_dispatched(
        &self,
        before: &RpcServer,
        xid: u32,
        call: call_body,
        auth: auth_unix,
        s: Seq<u8>,
        client: Seq<u8>,
        local_port: u16,
        out: Received<'_>,
    ) -> bool {
        if call.prog == NFS_PROGRAM && call.vers == 4 {
            &&& out is Running
            &&& out->Running_xid == xid
            &&& self.tracker == before.tracker
            &&& self.handler.has_handled_call(
                &before.handler,
                xid,
                call.vers,
                call.proc,
                s,
                auth,
                out->step,
            )
        } else if call.prog == NFS_PROGRAM || call.prog == MOUNT_PROGRAM {
            &&& out is Elsewhere
            &&& out->Elsewhere_xid == xid
            &&& out->call == call
            &&& out->auth == auth
            &&& out->input@ == s
            &&& *self == *before
        } else {
            &&& self.handler == before.handler
            &&& exists|now: Duration| #[trigger]
                self.tracker.has_marked(&before.tracker, now, xid, client)
            &&& {
                let want = if call.prog == portmap::PROGRAM {
                    portmap_answer(xid, call.vers, call.proc, s, local_port)
                } else {
                    Ok(accepted_bytes(xid, accept_body::PROG_UNAVAIL))
                };
                match want {
                    Ok(bytes) => out is Reply && out->bytes@ == bytes,
                    Err(e) => out == (Received::Failed { fault: e }),
                }
            }
        }
    }

    /// What a call comes to. One that was sent before is not run again.
    pub open spec fn has_taken_call(
        &self,
        before: &RpcServer,
        xid: u32,
        call: call_body,
        s: Seq<u8>,
        client: Seq<u8>,
        local_port: u16,
        out: Received<'_>,
    ) -> bool {
        if call.cred.flavor == auth_flavor::AUTH_UNIX && auth_unix::decoded_len(
            call.cred.body@,
        ) is Err {
            &&& out == (Received::Failed {
                fault: auth_unix::decoded_len(call.cred.body@)->Err_0,
            })
            &&& *self == *before
        } else if call.rpcvers != 2 {
            &&& out is Reply
            &&& out->bytes@ == vers_mismatch(xid).encoding()
            &&& *self == *before
        } else {
            exists|now: Duration, mid: TransactionTracker, again: bool|
                {
                    &&& #[trigger] mid.has_seen(&before.tracker, now, xid, client, again)
                    &&& if again {
                        &&& out is Nothing
                        &&& *self == (RpcServer { tracker: mid, ..*before })
                    } else {
                        exists|auth: auth_unix| #[trigger]
                            is_caller(call, auth) && self.has_dispatched(
                                &RpcServer { tracker: mid, ..*before },
                                xid,
                                call,
                                auth,
                                s,
                                client,
                                local_port,
                                out,
                            )
                    }
                }
        }
    }

    /// What a message comes to.
    pub open spec fn has_received(
        &self,
        before: &RpcServer,
        s: Seq<u8>,
        client: Seq<u8>,
        local_port: u16,
        out: Received<'_>,
    ) -> bool {
        match rpc_msg::decoded_len(s) {
            Err(e) => out == (Received::Failed { fault: e }) && *self == *before,
            Ok(n) => exists|msg: rpc_msg| #[trigger]
                msg.decodes_to(s) && match msg.body {
                    rpc_body::REPLY(reply) => {
                        &&& out is Nothing
                        &&& self.tracker == before.tracker
                        &&& self.handler.has_taken_reply(
                            &before.handler,
                            s.skip(n as int),
                            msg.xid,
                            reply,
                        )
                    },
                    rpc_body::CALL(call) => self.has_taken_call(
                        before,
                        msg.xid,
                        call,
                        s.skip(n as int),
                        client,
                        local_port,
                        out,
                    ),
                },
        }
    }

    fn dispatch_rpc<'a>(
        &mut self,
        xid: u32,
        call: call_body,
        auth: auth_unix,
        input: Reader<'a>,
        client: &str,
        local_port: u16,
    ) -> (r: Received<'a>)
        requires
            old(self).wf(),
        ensures
            final(self).wf(),
            final(self).has_dispatched(
                old(self),
                xid,
                call,
                auth,
                input@,
                text_bytes(client@),
                local_port,
                r,
            ),
    {
        if call.prog == NFS_PROGRAM && call.vers == 4 {
            let step = self.handler.handle_nfs4(xid, &call, input, auth);
            return Received::Running { xid, step };
        }
        if call.prog == NFS_PROGRAM || call.prog == MOUNT_PROGRAM {
            return Received::Elsewhere { xid, call, auth, input };
        }
        let mut input = input;
        let r = if call.prog == portmap::PROGRAM {
            match handle_portmap(xid, &call, &mut input, local_port) {
                Ok(bytes) => Received::Reply { bytes },
                Err(fault) => Received::Failed { fault },
            }
        } else {
            let mut bytes: Vec<u8> = Vec::new();
            put_accepted(&mut bytes, xid, accept_body::PROG_UNAVAIL);
            assert(bytes@ =~= accepted_bytes(xid, accept_body::PROG_UNAVAIL));
            Received::Reply { bytes }
        };
        let ghost before = self.tracker;
        self.tracker.mark_processed(xid, client);
        proof {
            let now = choose|now: Duration| #[trigger]
                self.tracker.has_marked(&before, now, xid, text_bytes(client@));
            assert(self.tracker.has_marked(&before, now, xid, text_bytes(client@)));
        }
        r
    }

    fn take_call<'a>(
        &mut self,
        xid: u32,
        call: call_body,
        input: Reader<'a>,
        client: &str,
        local_port: u16,
    ) -> (r: Received<'a>)
        requires
            old(self).wf(),
        ensures
            final(self).wf(),
            final(self).has_taken_call(
                old(self),
                xid,
                call,
                input@,
                text_bytes(client@),
                local_port,
                r,
            ),
    {
        let mut auth = auth_unix::default();
        if call.cred.flavor == auth_flavor::AUTH_UNIX {
            let mut cred = Reader::new(call.cred.body.as_slice());
            match auth_unix::decode(&mut cred) {
                Ok(a) => {
                    auth = a;
                },
                Err(fault) => {
                    return Received::Failed { fault };
                },
            }
        }
        assert(is_caller(call, auth));
        if call.rpcvers != 2 {
            let mut bytes: Vec<u8> = Vec::new();
            let msg = rpc_vers_mismatch(xid);
            assert(msg == vers_mismatch(xid));
            let _ = msg.serialize(&mut bytes);
            assert(bytes@ =~= msg.encoding());
            return Received::Reply { bytes };
        }
        let ghost before = *self;
        let again = self.tracker.is_retransmission(xid, client);
        proof {
            let now = choose|now: Duration| #[trigger]
                self.tracker.has_seen(&before.tracker, now, xid, text_bytes(client@), again);
            assert(self.tracker.has_seen(
                &before.tracker,
                now,
                xid,
                text_bytes(client@),
                again,
            ));
        }
        if again {
            return Received::Nothing;
        }
        self.dispatch_rpc(xid, call, auth, input, client, local_port)
    }

    /// Takes a message from a client.
    pub fn handle_rpc<'a>(&mut self, message: &'a [u8], client: &str, local_port: u16) -> (r:
        Received<'a>)
        requires
            old(self).wf(),
        ensures
            final(self).wf(),
            final(self).has_received(
                old(self),
                message@,
                text_bytes(client@),
                local_port,
                r,
            ),
    {
        let mut input = Reader::new(message);
        let msg = match rpc_msg::decode(&mut input) {
            Ok(m) => m,
            Err(fault) => {
                return Received::Failed { fault };
            },
        };
        assert(msg.decodes_to(message@));
        match msg.body {
            rpc_body::REPLY(reply) => {
                self.handler.handle_callback_reply(&mut input, msg.xid, &reply);
                Received::Nothing
            },
            rpc_body::CALL(call) => self.take_call(msg.xid, call, input, client, local_port),
        }
    }

    /// What it comes to that a call was answered.
    pub fn call_done(&mut self, xid: u32, client: &str)
        requires
            old(self).wf(),
        ensures
            final(self).wf(),
            final(self).handler == old(self).handler,
            exists|now: Duration| #[trigger]
                final(self).tracker.has_marked(
                    &old(self).tracker,
                    now,
                    xid,
                    text_bytes(client@),
                ),
    {
        let ghost before = self.tracker;
        self.tracker.mark_processed(xid, client);
        proof {
            let now = choose|now: Duration| #[trigger]
                self.tracker.has_marked(&before, now, xid, text_bytes(client@));
            assert(self.tracker.has_marked(&before, now, xid, text_bytes(client@)));
        }
    }
}

} // verus!
