//! The operations that are answered from what the server knows, without asking the storage.

use crate::args::{
    CreateSessionArgs, ExchangeIdArgs, SequenceArgs, SetclientidArgs, SetclientidConfirmArgs,
};
use crate::bytes::{
    be32, be64, bytes_eq, bytes_vec, key16, opaque, put_bytes, put_opaque, put_u32, put_u64,
    to_array,
};
use crate::client::ClientState;
use crate::compound::{CompoundContext, CompoundHandler};
use crate::error::{fails_with, failure, Nfs4Result, Nfs4Status};
use crate::fs::{file_of, handle_of, ROOT_FILEID};
use crate::ops::{answer_with, answers_with, gives, gives_up, pass_on, OpStep};
use crate::session::Admission;
use crate::time::{unix_time, Duration};
use crate::types::{ClientOwner4, Clientid4, Nfs4FileHandle, Sessionid4, Verifier4};
use crate::xdr::after;
use vstd::prelude::*;

verus! {

broadcast use vstd::std_specs::hash::group_hash_axioms;

impl CompoundHandler {
    /// Only the sessions and the clients may differ from `before`.
    pub open spec fn same_files(&self, before: &CompoundHandler) -> bool {
        &&& self.opens == before.opens
        &&& self.locks == before.locks
        &&& self.fs == before.fs
        &&& self.backchannel == before.backchannel
        &&& self.delegations == before.delegations
        &&& self.grace == before.grace
        &&& self.boot_time == before.boot_time
        &&& self.data_server == before.data_server
    }

    // -----------------------------------------------------------------------
    // Sessions
    // -----------------------------------------------------------------------

    /// What a slot answers with.
    pub open spec fn sequence_bytes(args: SequenceArgs, highest: u32, flags: u32) -> Seq<u8> {
        args.sessionid@ + be32(args.sequenceid) + be32(args.slotid) + be32(highest) + be32(highest)
            + be32(flags)
    }

    /// What naming a slot comes to. A request that is new runs in the session from there on, and
    /// its client counts as heard from; a request that was answered is over with the same answer,
    /// and changes nothing.
    pub open spec fn has_sequenced(
        &self,
        before: &CompoundHandler,
        args: SequenceArgs,
        ctx: CompoundContext,
        ctx2: CompoundContext,
        step: OpStep,
    ) -> bool {
        let k = key16(args.sessionid@);
        let session = before.sessions.sessions@[k];
        let c = session.clientid;
        &&& self.same_files(before)
        &&& self.sessions.has_replaced_slot(
            &before.sessions,
            k,
            args.slotid,
            session.slots@[args.slotid as int].admitting(args.sequenceid),
        )
        &&& match before.sessions.admission(k, args.slotid, args.sequenceid) {
            Admission::Refuse(st) => {
                &&& gives_up(step, st)
                &&& ctx2 == ctx
                &&& self.clients == before.clients
            },
            Admission::Replay(kept) => {
                &&& step matches OpStep::Replay { reply }
                &&& reply@ == kept
                &&& ctx2 == ctx
                &&& self.clients == before.clients
            },
            Admission::Run => {
                &&& ctx2 == CompoundContext {
                    sessionid: Some(args.sessionid),
                    slot_id: Some(args.slotid),
                    clientid: Some(c),
                    ..ctx
                }
                &&& self.clients.same_but(&before.clients, c)
                &&& if before.clients.clients@.contains_key(c) {
                    &&& self.clients.clients@[c] == ClientState {
                        last_renew: self.clients.clients@[c].last_renew,
                        ..before.clients.clients@[c]
                    }
                    &&& answers_with(
                        step,
                        Self::sequence_bytes(args, session.spec_highest_slot(), session.flags),
                    )
                } else {
                    gives_up(step, Nfs4Status::StaleClientid)
                }
            },
        }
    }

    /// Names the slot that the request runs in.
    pub fn op_sequence(&mut self, ctx: &mut CompoundContext, args: SequenceArgs) -> (r: OpStep)
        requires
            old(self).wf(),
        ensures
            final(self).wf(),
            final(self).has_sequenced(old(self), args, *old(ctx), *final(ctx), r),
    {
        let admitted = match self.sessions.sequence(
            &args.sessionid,
            args.slotid,
            args.sequenceid,
        ) {
            Ok(admitted) => admitted,
            Err(e) => {
                return pass_on(e);
            },
        };
        if let Some(cached) = admitted.cached {
            return OpStep::Replay { reply: cached.reply };
        }
        ctx.sessionid = Some(args.sessionid);
        ctx.slot_id = Some(args.slotid);
        ctx.clientid = Some(admitted.clientid);
        if let Err(e) = self.clients.renew_lease(admitted.clientid) {
            return pass_on(e);
        }
        let mut out: Vec<u8> = Vec::new();
        put_bytes(&mut out, vstd::array::array_as_slice(&args.sessionid));
        put_u32(&mut out, args.sequenceid);
        put_u32(&mut out, args.slotid);
        put_u32(&mut out, admitted.highest_slot);
        put_u32(&mut out, admitted.target_highest_slot);
        put_u32(&mut out, admitted.status_flags);
        assert(out@ =~= Self::sequence_bytes(args, admitted.highest_slot, admitted.status_flags));
        answer_with(out)
    }

    /// "curvine".
    pub open spec fn server_name() -> Seq<u8> {
        seq![99u8, 117u8, 114u8, 118u8, 105u8, 110u8, 101u8]
    }

    /// "curvine.local".
    pub open spec fn server_scope() -> Seq<u8> {
        seq![
            99u8, 117u8, 114u8, 118u8, 105u8, 110u8, 101u8, 46u8, 108u8, 111u8, 99u8, 97u8, 108u8,
        ]
    }

    /// What a client is told that has made itself known: its id, the number that its first request
    /// for a session carries, that there are no layouts and that files may move, and who the
    /// server is.
    pub open spec fn exchange_bytes(clientid: Clientid4, seqid: u32) -> Seq<u8> {
        be64(clientid) + be32(seqid) + be32(0x0001_0001) + be32(0) + be64(0) + opaque(
            Self::server_name(),
        ) + opaque(Self::server_scope()) + be32(0)
    }

    /// What a client comes to that makes itself known.
    pub open spec fn has_exchanged(
        &self,
        before: &CompoundHandler,
        args: ExchangeIdArgs,
        r: Nfs4Result<Vec<u8>>,
    ) -> bool {
        &&& self.same_files(before)
        &&& self.sessions == before.sessions
        &&& exists|now: Duration, e: Nfs4Result<(Clientid4, u32, u32)>|
            {
                &&& #[trigger] self.clients.has_exchanged(&before.clients, now, args.client_owner, e)
                &&& match e {
                    Ok((clientid, seqid, _)) => gives(r, Self::exchange_bytes(clientid, seqid)),
                    Err(_) => fails_with(r, Nfs4Status::Serverfault),
                }
            }
    }

    /// A client makes itself known.
    pub fn op_exchange_id(&mut self, args: ExchangeIdArgs) -> (r: Nfs4Result<Vec<u8>>)
        requires
            old(self).wf(),
        ensures
            final(self).wf(),
            final(self).has_exchanged(old(self), args, r),
    {
        let e = self.clients.exchange_id(args.client_owner);
        proof {
            let now = choose|now: Duration| #[trigger]
                self.clients.has_exchanged(&old(self).clients, now, args.client_owner, e);
            assert(self.clients.has_exchanged(&old(self).clients, now, args.client_owner, e));
        }
        let (clientid, seqid) = match e {
            Ok((c, s, _)) => (c, s),
            Err(err) => {
                return Err(err);
            },
        };
        let mut out: Vec<u8> = Vec::new();
        put_u64(&mut out, clientid);
        put_u32(&mut out, seqid);
        put_u32(&mut out, 0x0001_0001);
        put_u32(&mut out, 0);
        put_u64(&mut out, 0);
        let name: [u8; 7] = [99, 117, 114, 118, 105, 110, 101];
        assert(name@ =~= Self::server_name());
        put_opaque(&mut out, vstd::array::array_as_slice(&name));
        let scope: [u8; 13] = [99, 117, 114, 118, 105, 110, 101, 46, 108, 111, 99, 97, 108];
        assert(scope@ =~= Self::server_scope());
        put_opaque(&mut out, vstd::array::array_as_slice(&scope));
        put_u32(&mut out, 0);
        assert(out@ =~= Self::exchange_bytes(clientid, seqid));
        Ok(out)
    }

    /// What a channel of a session holds.
    pub open spec fn channel_bytes(slots: u32) -> Seq<u8> {
        be32(0) + be32(0x10_0000) + be32(0x10_0000) + be32(0x1_0000) + be32(64) + be32(slots) + be32(
            0,
        )
    }

    /// What a client is told that has got a session.
    pub open spec fn session_bytes(id: Seq<u8>, seqid: u32, slots: u32) -> Seq<u8> {
        id + be32(seqid) + be32(0) + Self::channel_bytes(slots) + Self::channel_bytes(slots)
    }

    /// What asking for a session comes to. A request that was answered gets the same answer; one
    /// that carries neither the last number nor the next is refused. A session is made as long as
    /// there are numbers for one.
    pub open spec fn has_made_session(
        &self,
        before: &CompoundHandler,
        args: CreateSessionArgs,
        r: Nfs4Result<Vec<u8>>,
    ) -> bool {
        let c = args.head.clientid;
        let seqid = args.head.seqid;
        let client = before.clients.clients@[c];
        if !before.clients.clients@.contains_key(c) {
            fails_with(r, Nfs4Status::StaleClientid) && *self == *before
        } else if seqid.wrapping_add(1) == client.create_session_sequence {
            &&& *self == *before
            &&& if client.create_session_slot.response@.len() > 0 {
                gives(r, client.create_session_slot.response@)
            } else {
                fails_with(r, Nfs4Status::SeqMisordered)
            }
        } else if seqid != client.create_session_sequence {
            fails_with(r, Nfs4Status::SeqMisordered) && *self == *before
        } else if !before.can_make_session() {
            fails_with(r, Nfs4Status::Serverfault) && *self == *before
        } else {
            &&& self.same_files(before)
            &&& exists|id: Nfs4Result<Sessionid4>|
                {
                    &&& #[trigger] self.sessions.has_created(&before.sessions, c, 0, id)
                    &&& gives(
                        r,
                        Self::session_bytes(
                            id->Ok_0@,
                            seqid,
                            before.sessions.default_slot_count,
                        ),
                    )
                }
            &&& self.clients.same_but(&before.clients, c)
            &&& self.clients.clients@[c].create_session_slot.response@ == r->Ok_0@
            &&& self.clients.clients@[c].create_session_slot.status == 0
            &&& self.clients.clients@[c] == ClientState {
                confirmed: true,
                last_renew: self.clients.clients@[c].last_renew,
                create_session_sequence: seqid.wrapping_add(1),
                create_session_slot: self.clients.clients@[c].create_session_slot,
                ..client
            }
        }
    }

    fn put_channel(out: &mut Vec<u8>, slots: u32)
        ensures
            final(out)@ == old(out)@ + Self::channel_bytes(slots),
    {
        let ghost o = out@;
        put_u32(out, 0);
        put_u32(out, 0x10_0000);
        put_u32(out, 0x10_0000);
        put_u32(out, 0x1_0000);
        put_u32(out, 64);
        put_u32(out, slots);
        put_u32(out, 0);
        assert(out@ =~= o + Self::channel_bytes(slots));
    }

    /// A client asks for a session.
    pub fn op_create_session(&mut self, args: CreateSessionArgs) -> (r: Nfs4Result<Vec<u8>>)
        requires
            old(self).wf(),
        ensures
            final(self).wf(),
            final(self).has_made_session(old(self), args, r),
    {
        let clientid: u64 = args.head.clientid;
        let seqid: u32 = args.head.seqid;
        let client = match self.clients.get_client(clientid) {
            Some(c) => c,
            None => {
                return failure(Nfs4Status::StaleClientid);
            },
        };
        let expected: u32 = client.get_create_session_sequence();
        if seqid.wrapping_add(1) == expected {
            let cached = client.get_cached_create_session_response();
            if cached.response.len() > 0 {
                return Ok(cached.response);
            }
            return failure(Nfs4Status::SeqMisordered);
        }
        if seqid != expected {
            return failure(Nfs4Status::SeqMisordered);
        }
        if self.sessions.next_session_id == u64::MAX {
            return failure(Nfs4Status::Serverfault);
        }
        let created = self.sessions.create_session(clientid);
        let id = match &created {
            Ok(id) => *id,
            Err(_) => [0u8; 16],
        };
        let slots: u32 = match self.sessions.get_session(&id) {
            Some(s) => s.slot_count(),
            None => 0,
        };
        assert(slots == old(self).sessions.default_slot_count);
        let _ = self.clients.confirm_client(clientid);
        let ghost mid = self.clients;
        let mut out: Vec<u8> = Vec::new();
        put_bytes(&mut out, vstd::array::array_as_slice(&id));
        put_u32(&mut out, seqid);
        put_u32(&mut out, 0);
        Self::put_channel(&mut out, slots);
        Self::put_channel(&mut out, slots);
        assert(out@ =~= Self::session_bytes(id@, seqid, slots));
        let kept = bytes_vec(out.as_slice());
        let _ = self.clients.session_created(clientid, kept, 0);
        proof {
            assert(self.sessions.has_created(&old(self).sessions, clientid, 0, created));
            assert(self.clients.clients@.dom() =~= old(self).clients.clients@.dom());
        }
        Ok(out)
    }

    /// Ends a session.
    pub open spec fn destroy_session_result(
        &self,
        before: &CompoundHandler,
        sessionid: Sessionid4,
        r: Nfs4Result<Vec<u8>>,
    ) -> bool {
        &&& self.same_files(before)
        &&& self.clients == before.clients
        &&& self.sessions.sessions@ == before.sessions.sessions@.remove(
            key16(sessionid@),
        )
        &&& if before.sessions.sessions@.contains_key(key16(sessionid@)) {
            gives(r, Seq::empty())
        } else {
            fails_with(r, Nfs4Status::BadSession)
        }
    }

    /// Ends a session.
    pub fn op_destroy_session(&mut self, sessionid: &Sessionid4) -> (r: Nfs4Result<Vec<u8>>)
        requires
            old(self).wf(),
        ensures
            final(self).wf(),
            final(self).destroy_session_result(old(self), *sessionid, r),
    {
        self.sessions.destroy_session(sessionid)?;
        Ok(Vec::new())
    }

    /// What a client comes to that says that it has taken back all that it had.
    pub open spec fn has_noted_reclaim(
        &self,
        before: &CompoundHandler,
        ctx: CompoundContext,
        r: Nfs4Result<Vec<u8>>,
    ) -> bool {
        &&& gives(r, Seq::empty())
        &&& self.same_files(before)
        &&& self.sessions == before.sessions
        &&& match ctx.clientid {
            Some(c) => {
                &&& self.clients.same_but(&before.clients, c)
                &&& before.clients.clients@.contains_key(c) ==> self.clients.clients@[c]
                    == ClientState { reclaim_complete: true, ..before.clients.clients@[c] }
            },
            None => self.clients == before.clients,
        }
    }

    /// A client has taken back all that it had before the server started.
    pub fn op_reclaim_complete(&mut self, ctx: &CompoundContext) -> (r: Nfs4Result<Vec<u8>>)
        requires
            old(self).wf(),
        ensures
            final(self).wf(),
            final(self).has_noted_reclaim(old(self), *ctx, r),
    {
        if let Some(c) = ctx.clientid {
            let _ = self.clients.reclaim_completed(c);
        }
        Ok(Vec::new())
    }

    // -----------------------------------------------------------------------
    // Clients without sessions
    // -----------------------------------------------------------------------

    /// What a client comes to that makes itself known: a confirmed one that has not started anew
    /// keeps its id. The second part of the result is different each time.
    pub open spec fn has_set_client(
        &self,
        before: &CompoundHandler,
        client_id: Seq<u8>,
        verifier: Verifier4,
        r: Nfs4Result<(Clientid4, Verifier4)>,
    ) -> bool {
        let known = before.clients.client_of(client_id);
        &&& self.same_files(before)
        &&& self.sessions == before.sessions
        &&& if known is Some && before.clients.clients@[known->Some_0].owner.co_verifier@
            == verifier@ && before.clients.clients@[known->Some_0].confirmed {
            r is Ok && r->Ok_0.0 == known->Some_0 && self.clients == before.clients
        } else {
            exists|now: Duration, owner: ClientOwner4, e: Nfs4Result<(Clientid4, u32, u32)>|
                {
                    &&& #[trigger] self.clients.has_exchanged(&before.clients, now, owner, e)
                    &&& owner.co_ownerid@ == client_id
                    &&& owner.co_verifier == verifier
                    &&& match e {
                        Ok((clientid, _, _)) => r is Ok && r->Ok_0.0 == clientid,
                        Err(_) => fails_with(r, Nfs4Status::Serverfault),
                    }
                }
        }
        &&& r is Ok ==> exists|t: Duration| r->Ok_0.1@ == #[trigger] Self::stamp(t)
    }

    /// The bytes of a moment.
    pub open spec fn stamp(t: Duration) -> Seq<u8> {
        be64(t.nanos as u64)
    }

    /// What a client has to confirm that made itself known at `t`.
    pub fn confirm_verifier_at(t: Duration) -> (r: Verifier4)
        ensures
            r@ == Self::stamp(t),
    {
        let nanos: u64 = #[verifier::truncate] (t.nanos as u64);
        let mut out: Vec<u8> = Vec::new();
        put_u64(&mut out, nanos);
        assert(out@ =~= Self::stamp(t));
        let r: Verifier4 = to_array(out.as_slice());
        assert(r@ == Self::stamp(t));
        r
    }

    fn confirm_verifier() -> (r: Verifier4)
        ensures
            exists|t: Duration| r@ == #[trigger] Self::stamp(t),
    {
        Self::confirm_verifier_at(unix_time())
    }

    /// A client makes itself known, in the version before sessions.
    pub fn handle_setclientid_v40(&mut self, client_id: Vec<u8>, verifier: Verifier4) -> (r:
        Nfs4Result<(Clientid4, Verifier4)>)
        requires
            old(self).wf(),
        ensures
            final(self).wf(),
            final(self).has_set_client(old(self), client_id@, verifier, r),
    {
        if let Some(known) = self.clients.find_client_by_owner(client_id.as_slice()) {
            if let Some(client) = self.clients.get_client(known) {
                if bytes_eq(
                    vstd::array::array_as_slice(&client.owner.co_verifier),
                    vstd::array::array_as_slice(&verifier),
                ) && client.is_confirmed() {
                    return Ok((known, Self::confirm_verifier()));
                }
            }
        }
        let owner = ClientOwner4 { co_verifier: verifier, co_ownerid: client_id };
        let e = self.clients.exchange_id(owner);
        proof {
            let now = choose|now: Duration| #[trigger]
                self.clients.has_exchanged(&old(self).clients, now, owner, e);
            assert(self.clients.has_exchanged(&old(self).clients, now, owner, e));
        }
        match e {
            Ok((clientid, _, _)) => Ok((clientid, Self::confirm_verifier())),
            Err(err) => Err(err),
        }
    }

    /// A client makes itself known, in the version before sessions. It gets its id and what it has
    /// to confirm it with.
    pub fn op_setclientid(&mut self, ctx: &mut CompoundContext, args: SetclientidArgs) -> (r:
        Nfs4Result<Vec<u8>>)
        requires
            old(self).wf(),
        ensures
            final(self).wf(),
            final(self).has_set_clientid(old(self), args, *old(ctx), *final(ctx), r),
    {
        let set = self.handle_setclientid_v40(args.client_id, args.verifier);
        assert(self.has_set_client(old(self), args.client_id@, args.verifier, set));
        let (clientid, verifier) = match set {
            Ok((c, v)) => (c, v),
            Err(err) => {
                return Err(err);
            },
        };
        ctx.clientid = Some(clientid);
        let mut out: Vec<u8> = Vec::new();
        put_u64(&mut out, clientid);
        put_bytes(&mut out, vstd::array::array_as_slice(&verifier));
        assert(out@ =~= be64(clientid) + verifier@);
        Ok(out)
    }

    /// What a client is told that has made itself known.
    pub open spec fn has_set_clientid(
        &self,
        before: &CompoundHandler,
        args: SetclientidArgs,
        ctx: CompoundContext,
        ctx2: CompoundContext,
        r: Nfs4Result<Vec<u8>>,
    ) -> bool {
        exists|set: Nfs4Result<(Clientid4, Verifier4)>|
            {
                &&& #[trigger] self.has_set_client(before, args.client_id@, args.verifier, set)
                &&& match set {
                    Ok((clientid, confirm)) => {
                        &&& gives(r, be64(clientid) + confirm@)
                        &&& ctx2 == CompoundContext { clientid: Some(clientid), ..ctx }
                    },
                    Err(_) => fails_with(r, Nfs4Status::Serverfault) && ctx2 == ctx,
                }
            }
    }

    /// What a client comes to that confirms that it is known.
    pub open spec fn has_confirmed_client(
        &self,
        before: &CompoundHandler,
        clientid: Clientid4,
        ctx: CompoundContext,
        ctx2: CompoundContext,
        r: Nfs4Result<Vec<u8>>,
    ) -> bool {
        if before.clients.clients@.contains_key(clientid) {
            &&& gives(r, Seq::empty())
            &&& self.same_files(before)
            &&& self.sessions == before.sessions
            &&& self.clients.same_but(&before.clients, clientid)
            &&& self.clients.clients@[clientid] == ClientState {
                confirmed: true,
                last_renew: self.clients.clients@[clientid].last_renew,
                ..before.clients.clients@[clientid]
            }
            &&& ctx2 == CompoundContext { clientid: Some(clientid), ..ctx }
        } else {
            fails_with(r, Nfs4Status::StaleClientid) && *self == *before && ctx2 == ctx
        }
    }

    /// A client confirms that it is known.
    pub fn op_setclientid_confirm(
        &mut self,
        ctx: &mut CompoundContext,
        args: SetclientidConfirmArgs,
    ) -> (r: Nfs4Result<Vec<u8>>)
        requires
            old(self).wf(),
        ensures
            final(self).wf(),
            final(self).has_confirmed_client(
                old(self),
                args.clientid,
                *old(ctx),
                *final(ctx),
                r,
            ),
    {
        if self.clients.get_client(args.clientid).is_none() {
            return failure(Nfs4Status::StaleClientid);
        }
        self.clients.confirm_client(args.clientid)?;
        ctx.clientid = Some(args.clientid);
        Ok(Vec::new())
    }

    /// What a client comes to that is heard from.
    pub open spec fn has_renewed(
        &self,
        before: &CompoundHandler,
        clientid: Clientid4,
        ctx: CompoundContext,
        ctx2: CompoundContext,
        r: Nfs4Result<Vec<u8>>,
    ) -> bool {
        &&& self.same_files(before)
        &&& self.sessions == before.sessions
        &&& self.clients.same_but(&before.clients, clientid)
        &&& if before.clients.clients@.contains_key(clientid) {
            &&& gives(r, Seq::empty())
            &&& self.clients.clients@[clientid] == ClientState {
                last_renew: self.clients.clients@[clientid].last_renew,
                ..before.clients.clients@[clientid]
            }
            &&& ctx2 == CompoundContext { clientid: Some(clientid), ..ctx }
        } else {
            fails_with(r, Nfs4Status::StaleClientid) && ctx2 == ctx
        }
    }

    /// A client is heard from.
    pub fn op_renew(&mut self, ctx: &mut CompoundContext, clientid: Clientid4) -> (r: Nfs4Result<
        Vec<u8>,
    >)
        requires
            old(self).wf(),
        ensures
            final(self).wf(),
            final(self).has_renewed(old(self), clientid, *old(ctx), *final(ctx), r),
    {
        self.clients.renew_lease(clientid)?;
        ctx.clientid = Some(clientid);
        Ok(Vec::new())
    }

    // -----------------------------------------------------------------------
    // Handles
    // -----------------------------------------------------------------------

    /// Goes to the root.
    pub open spec fn putrootfh_result(
        &self,
        ctx: CompoundContext,
        ctx2: CompoundContext,
        r: Nfs4Result<Vec<u8>>,
    ) -> bool {
        &&& gives(r, Seq::empty())
        &&& ctx2.is_at(
            ctx,
            handle_of(self.fs.config.cluster_generation, ROOT_FILEID),
        )
    }

    /// Goes to the root.
    pub fn op_putrootfh(&self, ctx: &mut CompoundContext) -> (r: Nfs4Result<Vec<u8>>)
        ensures
            self.putrootfh_result(*old(ctx), *final(ctx), r),
    {
        let fh = self.fs.fileid_to_fh(self.fs.root_fileid());
        ctx.current_fh = Some(fh);
        Ok(Vec::new())
    }

    /// Goes to what is open to everyone, which is the root.
    pub open spec fn putpubfh_result(
        &self,
        ctx: CompoundContext,
        ctx2: CompoundContext,
        r: Nfs4Result<Vec<u8>>,
    ) -> bool {
        &&& gives(r, Seq::empty())
        &&& ctx2.is_at(
            ctx,
            handle_of(self.fs.config.cluster_generation, ROOT_FILEID),
        )
    }

    /// Goes to what is open to everyone, which is the root.
    pub fn op_putpubfh(&self, ctx: &mut CompoundContext) -> (r: Nfs4Result<Vec<u8>>)
        ensures
            self.putpubfh_result(*old(ctx), *final(ctx), r),
    {
        self.op_putrootfh(ctx)
    }

    /// Goes to the file of a handle.
    pub open spec fn putfh_result(
        &self,
        ctx: CompoundContext,
        ctx2: CompoundContext,
        fh: Nfs4FileHandle,
        r: Nfs4Result<Vec<u8>>,
    ) -> bool {
        match file_of(self.fs.config.cluster_generation, fh@) {
            Ok(_) => gives(r, Seq::empty()) && ctx2 == (CompoundContext {
                current_fh: Some(fh),
                ..ctx
            }),
            Err(st) => fails_with(r, st) && ctx2 == ctx,
        }
    }

    /// Goes to the file of a handle.
    pub fn op_putfh(
        &self,
        ctx: &mut CompoundContext,
        fh: Nfs4FileHandle,
    ) -> (r: Nfs4Result<Vec<u8>>)
        ensures
            self.putfh_result(*old(ctx), *final(ctx), fh, r),
    {
        self.fs.fh_to_fileid(&fh)?;
        ctx.current_fh = Some(fh);
        Ok(Vec::new())
    }

    /// The handle of the file that the request is at.
    pub open spec fn getfh_result(
        &self,
        ctx: CompoundContext,
        r: Nfs4Result<Vec<u8>>,
    ) -> bool {
        match ctx.current_fh {
            Some(fh) => gives(r, opaque(fh@)),
            None => fails_with(r, Nfs4Status::Nofilehandle),
        }
    }

    /// The handle of the file that the request is at.
    pub fn op_getfh(&self, ctx: &CompoundContext) -> (r: Nfs4Result<Vec<u8>>)
        ensures
            self.getfh_result(*ctx, r),
    {
        let fh = ctx.require_current_fh()?;
        let mut out: Vec<u8> = Vec::new();
        put_opaque(&mut out, fh.data.as_slice());
        assert(out@ =~= opaque(fh@));
        Ok(out)
    }

    /// Whether two places that may hold a handle hold the same.
    pub open spec fn same_handle(a: Option<Nfs4FileHandle>, b: Option<Nfs4FileHandle>) -> bool {
        match (a, b) {
            (Some(x), Some(y)) => x@ == y@,
            (None, None) => true,
            _ => false,
        }
    }

    /// Saves the handle that the request is at.
    pub open spec fn savefh_result(
        ctx: CompoundContext,
        ctx2: CompoundContext,
        r: Nfs4Result<Vec<u8>>,
    ) -> bool {
        &&& gives(r, Seq::empty())
        &&& Self::same_handle(ctx2.saved_fh, ctx.current_fh)
        &&& ctx2 == (CompoundContext { saved_fh: ctx2.saved_fh, ..ctx })
    }

    /// Saves the handle that the request is at.
    pub fn op_savefh(ctx: &mut CompoundContext) -> (r: Nfs4Result<Vec<u8>>)
        ensures
            Self::savefh_result(*old(ctx), *final(ctx), r),
    {
        let saved = match &ctx.current_fh {
            Some(fh) => Some(fh.clone()),
            None => None,
        };
        ctx.saved_fh = saved;
        Ok(Vec::new())
    }

    /// Goes back to the handle that was saved.
    pub open spec fn restorefh_result(
        ctx: CompoundContext,
        ctx2: CompoundContext,
        r: Nfs4Result<Vec<u8>>,
    ) -> bool {
        match ctx.saved_fh {
            Some(fh) => gives(r, Seq::empty()) && ctx2 == (CompoundContext {
                current_fh: Some(fh),
                saved_fh: None,
                ..ctx
            }),
            None => fails_with(r, Nfs4Status::Restorefh) && ctx2 == ctx,
        }
    }

    /// Goes back to the handle that was saved.
    pub fn op_restorefh(ctx: &mut CompoundContext) -> (r: Nfs4Result<Vec<u8>>)
        ensures
            Self::restorefh_result(*old(ctx), *final(ctx), r),
    {
        match ctx.saved_fh.take() {
            Some(fh) => {
                ctx.current_fh = Some(fh);
                Ok(Vec::new())
            },
            None => failure(Nfs4Status::Restorefh),
        }
    }

    /// How files may be got at: one flavor, that of user numbers. The handle is used up.
    pub open spec fn secinfo_no_name_result(
        &self,
        ctx: CompoundContext,
        ctx2: CompoundContext,
        r: Nfs4Result<Vec<u8>>,
    ) -> bool {
        match ctx.current_fh {
            Some(_) => gives(r, be32(1) + be32(1)) && ctx2 == (CompoundContext {
                current_fh: None,
                ..ctx
            }),
            None => fails_with(r, Nfs4Status::Nofilehandle) && ctx2 == ctx,
        }
    }

    /// How files may be got at: one flavor, that of user numbers. The handle is used up.
    pub fn op_secinfo_no_name(&self, ctx: &mut CompoundContext) -> (r: Nfs4Result<Vec<u8>>)
        ensures
            self.secinfo_no_name_result(*old(ctx), *final(ctx), r),
    {
        if ctx.current_fh.is_none() {
            return failure(Nfs4Status::Nofilehandle);
        }
        let mut out: Vec<u8> = Vec::new();
        put_u32(&mut out, 1);
        put_u32(&mut out, 1);
        ctx.current_fh = None;
        assert(out@ =~= be32(1) + be32(1));
        Ok(out)
    }
}

// ---------------------------------------------------------------------------
// Laws
// ---------------------------------------------------------------------------

/// The handle that a client goes to is the one that it is told afterwards.
pub proof fn law_handle_put_is_handle_got(
    h: CompoundHandler,
    ctx: CompoundContext,
    ctx2: CompoundContext,
    fh: Nfs4FileHandle,
    put: Nfs4Result<Vec<u8>>,
    got: Nfs4Result<Vec<u8>>,
)
    requires
        h.putfh_result(ctx, ctx2, fh, put),
        put is Ok,
        h.getfh_result(ctx2, got),
    ensures
        gives(got, opaque(fh@)),
{
}

/// A handle that was put aside is the current one again after it was taken back, whatever the
/// current one was in between, and it can be taken back only once.
pub proof fn law_saved_handle_is_restored(
    a: CompoundContext,
    b: CompoundContext,
    c: CompoundContext,
    d: CompoundContext,
    saved: Nfs4Result<Vec<u8>>,
    restored: Nfs4Result<Vec<u8>>,
)
    requires
        CompoundHandler::savefh_result(a, b, saved),
        a.current_fh is Some,
        c.saved_fh == b.saved_fh,
        CompoundHandler::restorefh_result(c, d, restored),
    ensures
        gives(restored, Seq::empty()),
        CompoundHandler::same_handle(d.current_fh, a.current_fh),
        d.saved_fh is None,
{
}

/// A client that asks again for the session that it asked for last is told the same once more,
/// and nothing else happens, whatever has come in between, as long as the client is known and has
/// asked for no other session.
pub proof fn law_session_is_made_once(
    before: CompoundHandler,
    mid: CompoundHandler,
    later: CompoundHandler,
    after: CompoundHandler,
    args: CreateSessionArgs,
    first: Nfs4Result<Vec<u8>>,
    second: Nfs4Result<Vec<u8>>,
)
    requires
        mid.has_made_session(&before, args, first),
        first is Ok,
        later.clients.clients@.contains_key(args.head.clientid),
        later.clients.clients@[args.head.clientid].create_session_sequence
            == mid.clients.clients@[args.head.clientid].create_session_sequence,
        later.clients.clients@[args.head.clientid].create_session_slot
            == mid.clients.clients@[args.head.clientid].create_session_slot,
        after.has_made_session(&later, args, second),
    ensures
        gives(second, first->Ok_0@),
        after == later,
{
    let seqid = args.head.seqid;
    assert(seqid.wrapping_add(1) != seqid);
    if before.clients.clients@[args.head.clientid].create_session_sequence == seqid {
        let id = choose|id: Nfs4Result<Sessionid4>|
            {
                &&& #[trigger] mid.sessions.has_created(&before.sessions, args.head.clientid, 0, id)
                &&& gives(
                    first,
                    CompoundHandler::session_bytes(
                        id->Ok_0@,
                        seqid,
                        before.sessions.default_slot_count,
                    ),
                )
            };
        assert(id->Ok_0@.len() == 16);
        assert(first->Ok_0@.len() >= 16);
    }
}

/// A request for a session that comes out of turn, or from a client that is not known, is refused
/// and changes nothing.
pub proof fn law_session_out_of_turn_is_refused(
    before: CompoundHandler,
    after: CompoundHandler,
    args: CreateSessionArgs,
    r: Nfs4Result<Vec<u8>>,
)
    requires
        after.has_made_session(&before, args, r),
    ensures
        !before.clients.clients@.contains_key(args.head.clientid) ==> fails_with(
            r,
            Nfs4Status::StaleClientid,
        ) && after == before,
        ({
            let expected = before.clients.clients@[args.head.clientid].create_session_sequence;
            &&& before.clients.clients@.contains_key(args.head.clientid)
            &&& args.head.seqid != expected
            &&& args.head.seqid.wrapping_add(1) != expected
        }) ==> fails_with(r, Nfs4Status::SeqMisordered) && after == before,
{
}

} // verus!
