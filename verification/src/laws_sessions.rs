//! What clients, sessions and handles come to, from the request to what the client is told.

use crate::args::{CreateSessionArgs, ExchangeIdArgs, SequenceArgs, SetclientidArgs};
use crate::bytes::{
    be32, be32_at, be32_round_trip, be64, be64_at, be64_round_trip, key16, opaque, skip_prefix,
    XdrError,
};
use crate::client::{ClientManager, ClientState};
use crate::compound::{CompoundContext, CompoundHandler, Nfs4Op};
use crate::error::{Nfs4Result, Nfs4Status};
use crate::fs::{handle_of, ROOT_FILEID};
use crate::laws_data::target_found;
use crate::laws_names::{failed, went_well};
use crate::ops::{has_read, OpStep};
use crate::session::{Slot, SlotState};
use crate::storage::FsAnswer;
use crate::time::Duration;
use crate::types::{ClientOwner4, Clientid4, Fileid4, Nfs4FileHandle, Sessionid4, MAX_FH_SIZE};
use crate::xdr::{opaque_at, opaque_round_trip, Decode};
use vstd::prelude::*;

verus! {

// ---------------------------------------------------------------------------
// Sessions
// ---------------------------------------------------------------------------

/// A request names its session, its slot and its number in that slot. It runs exactly if the number
/// is the next one of the slot and nothing runs there; the slot then runs it, the request goes on
/// for the client of the session, and the client is told what it named and how many slots there
/// are. The last number again gets the reply that was kept, or is refused if none was; all other
/// numbers are out of order.
pub proof fn law_request_goes_by_its_slot(
    before: CompoundHandler,
    after: CompoundHandler,
    s: Seq<u8>,
    left: Seq<u8>,
    ctx: CompoundContext,
    ctx2: CompoundContext,
    step: OpStep,
)
    requires
        after.has_executed(&before, Nfs4Op::Sequence, s, left, ctx, ctx2, step),
        s.len() >= 32,
        before.sessions.sessions@[key16(s.take(16))].slots@.len() <= u32::MAX,
    ensures
        left == s.skip(32),
        ({
            let k = key16(s.take(16));
            let number = be32_at(s.skip(16));
            let at = be32_at(s.skip(20));
            let session = before.sessions.sessions@[k];
            let slot = session.slots@[at as int];
            let c = session.clientid;
            if !before.sessions.sessions@.contains_key(k) {
                failed(step, Nfs4Status::BadSession) && ctx2 == ctx
            } else if at >= session.slots@.len() {
                failed(step, Nfs4Status::BadSlot) && ctx2 == ctx
            } else if number == slot.sequence {
                &&& ctx2 == ctx
                &&& match slot.cached_reply {
                    Some(kept) => if kept.sequence == number {
                        step is Replay && step->reply@ == kept.reply@
                    } else {
                        failed(step, Nfs4Status::RetryUncachedRep)
                    },
                    None => failed(step, Nfs4Status::RetryUncachedRep),
                }
                &&& after.sessions.sessions@[k].slots@[at as int] == slot
            } else if number != slot.sequence.wrapping_add(1) || slot.state == SlotState::InUse {
                &&& failed(step, Nfs4Status::SeqMisordered)
                &&& ctx2 == ctx
                &&& after.sessions.sessions@[k].slots@[at as int] == slot
            } else {
                &&& ctx2.sessionid is Some
                &&& ctx2.sessionid->Some_0@ == s.take(16)
                &&& ctx2.slot_id == Some(at)
                &&& ctx2.clientid == Some(c)
                &&& ctx2.current_fh == ctx.current_fh
                &&& after.sessions.sessions@[k].slots@[at as int] == (Slot {
                    sequence: number,
                    state: SlotState::InUse,
                    ..slot
                })
                &&& if before.clients.clients@.contains_key(c) {
                    let told = step->result->Ok_0@;
                    &&& went_well(step)
                    &&& told.len() == 36
                    &&& told.take(16) == s.take(16)
                    &&& be32_at(told.skip(16)) == number
                    &&& be32_at(told.skip(20)) == at
                    &&& be32_at(told.skip(24)) == session.slots@.len() - 1
                    &&& be32_at(told.skip(28)) == session.slots@.len() - 1
                    &&& be32_at(told.skip(32)) == session.flags
                } else {
                    failed(step, Nfs4Status::StaleClientid)
                }
            }
        }),
        after == (CompoundHandler {
            sessions: after.sessions,
            clients: after.clients,
            ..before
        }),
{
    let args = sequence_read(before, after, s, left, ctx, ctx2, step);
    let k = key16(args.sessionid@);
    if before.sessions.has_slot(k, args.slotid) {
        let session = before.sessions.sessions@[k];
        sequence_told(args, session.spec_highest_slot(), session.flags);
    }
}

proof fn sequence_read(
    before: CompoundHandler,
    after: CompoundHandler,
    s: Seq<u8>,
    left: Seq<u8>,
    ctx: CompoundContext,
    ctx2: CompoundContext,
    step: OpStep,
) -> (args: SequenceArgs)
    requires
        after.has_executed(&before, Nfs4Op::Sequence, s, left, ctx, ctx2, step),
        s.len() >= 32,
    ensures
        left == s.skip(32),
        args.sessionid@ == s.take(16),
        args.sequenceid == be32_at(s.skip(16)),
        args.slotid == be32_at(s.skip(20)),
        after.has_sequenced(&before, args, ctx, ctx2, step),
{
    broadcast use crate::bytes::skip_skip;

    reveal(CompoundHandler::has_run);
    assert(before.has_room(Nfs4Op::Sequence));
    assert(SequenceArgs::decoded_len(s) == Ok::<nat, XdrError>(32));
    let got = choose|got: Nfs4Result<SequenceArgs>|
        {
            &&& #[trigger] has_read::<SequenceArgs>(s, left, got)
            &&& match got {
                Err(e) => after.has_refused(&before, ctx, ctx2, step, e),
                Ok(args) => after.has_sequenced(&before, args, ctx, ctx2, step),
            }
        };
    let args = got->Ok_0;
    crate::laws_order::law_sequence_args_stands_in_order(args, s);
    args
}

proof fn sequence_told(args: SequenceArgs, high: u32, flags: u32)
    ensures
        ({
            let told = CompoundHandler::sequence_bytes(args, high, flags);
            &&& told.len() == 36
            &&& told.take(16) == args.sessionid@
            &&& be32_at(told.skip(16)) == args.sequenceid
            &&& be32_at(told.skip(20)) == args.slotid
            &&& be32_at(told.skip(24)) == high
            &&& be32_at(told.skip(28)) == high
            &&& be32_at(told.skip(32)) == flags
        }),
{
    let a = args.sessionid@;
    let b = be32(args.sequenceid);
    let c = be32(args.slotid);
    let d = be32(high);
    let f = be32(flags);
    let told = CompoundHandler::sequence_bytes(args, high, flags);
    be32_round_trip(args.sequenceid, c + (d + (d + f)));
    be32_round_trip(args.slotid, d + (d + f));
    be32_round_trip(high, d + f);
    be32_round_trip(high, f);
    be32_round_trip(flags, Seq::empty());
    assert(told =~= a + (b + (c + (d + (d + f)))));
    assert(told.take(16) =~= a);
    assert(told.skip(16) =~= b + (c + (d + (d + f))));
    assert(told.skip(20) =~= c + (d + (d + f)));
    assert(told.skip(24) =~= d + (d + f));
    assert(told.skip(28) =~= d + f);
    assert(told.skip(32) =~= f + Seq::empty());
}

/// A session is made for a client that is known and asks with its next number; it is the client's,
/// has as many free slots as the server gives, and its id was not in use. The client is told the id,
/// the number, and what goes through the channels: requests and replies of up to 1 MiB, 64
/// operations, and the slots. All other sessions stay.
pub proof fn law_session_is_that_of_its_client(
    before: CompoundHandler,
    after: CompoundHandler,
    args: CreateSessionArgs,
    r: Nfs4Result<Vec<u8>>,
    j: u128,
)
    requires
        after.has_made_session(&before, args, r),
        before.sessions.next_session_id < u64::MAX,
        before.clients.clients@.contains_key(args.head.clientid),
        before.clients.clients@[args.head.clientid].create_session_sequence == args.head.seqid,
        before.sessions.default_slot_count <= 1024,
    ensures
        r is Ok,
        ({
            let told = r->Ok_0@;
            let k = key16(told.take(16));
            let session = after.sessions.sessions@[k];
            let client = after.clients.clients@[args.head.clientid];
            &&& told.len() == 80
            &&& !before.sessions.sessions@.contains_key(k)
            &&& after.sessions.sessions@.contains_key(k)
            &&& session.clientid == args.head.clientid
            &&& session.slots@.len() == before.sessions.default_slot_count
            &&& forall|i: int|
                0 <= i < session.slots@.len() ==> {
                    &&& (#[trigger] session.slots@[i]).sequence == 0
                    &&& session.slots@[i].state == SlotState::Free
                    &&& session.slots@[i].cached_reply is None
                }
            &&& be32_at(told.skip(16)) == args.head.seqid
            &&& be32_at(told.skip(20)) == 0
            &&& be32_at(told.skip(28)) == 0x10_0000
            &&& be32_at(told.skip(32)) == 0x10_0000
            &&& be32_at(told.skip(40)) == 64
            &&& be32_at(told.skip(44)) == before.sessions.default_slot_count
            &&& client.confirmed
            &&& client.create_session_sequence == args.head.seqid.wrapping_add(1)
            &&& client.create_session_slot.response@ == told
            &&& j != k ==> (after.sessions.sessions@.contains_key(j)
                <==> before.sessions.sessions@.contains_key(j))
            &&& before.sessions.sessions@.contains_key(j) ==> after.sessions.sessions@[j]
                == before.sessions.sessions@[j]
        }),
        after == (CompoundHandler {
            sessions: after.sessions,
            clients: after.clients,
            ..before
        }),
{
    let c = args.head.clientid;
    let id = choose|id: Nfs4Result<Sessionid4>|
        {
            &&& #[trigger] after.sessions.has_created(&before.sessions, c, 0, id)
            &&& crate::ops::gives(
                r,
                CompoundHandler::session_bytes(
                    id->Ok_0@,
                    args.head.seqid,
                    before.sessions.default_slot_count,
                ),
            )
        };
    let told = r->Ok_0@;
    let n = before.sessions.default_slot_count;
    let a = id->Ok_0@;
    let w = told.skip(48);
    assert(told.take(16) =~= a);
    assert(told.skip(16) =~= be32(args.head.seqid) + told.skip(20));
    assert(told.skip(20) =~= be32(0) + told.skip(24));
    assert(told.skip(28) =~= be32(0x10_0000) + told.skip(32));
    assert(told.skip(32) =~= be32(0x10_0000) + told.skip(36));
    assert(told.skip(40) =~= be32(64) + told.skip(44));
    assert(told.skip(44) =~= be32(n) + w);
    be32_round_trip(args.head.seqid, told.skip(20));
    be32_round_trip(0, told.skip(24));
    be32_round_trip(0x10_0000, told.skip(32));
    be32_round_trip(0x10_0000, told.skip(36));
    be32_round_trip(64, told.skip(44));
    be32_round_trip(n, w);
    let k = key16(a);
    let session = after.sessions.sessions@[k];
    assert forall|i: int| 0 <= i < session.slots@.len() implies {
        &&& (#[trigger] session.slots@[i]).sequence == 0
        &&& session.slots@[i].state == SlotState::Free
        &&& session.slots@[i].cached_reply is None
    } by {
        assert(session.slots@[i] == Slot::fresh(i as u32));
    }
    assert(after.sessions.sessions@.dom().contains(j) == before.sessions.sessions@.dom().insert(
        k,
    ).contains(j));
}

/// A session that is given up is gone, and only it; one that is not there is refused.
pub proof fn law_given_up_session_is_gone(
    before: CompoundHandler,
    after: CompoundHandler,
    sessionid: Sessionid4,
    r: Nfs4Result<Vec<u8>>,
    j: u128,
)
    requires
        after.destroy_session_result(&before, sessionid, r),
    ensures
        !after.sessions.sessions@.contains_key(key16(sessionid@)),
        j != key16(sessionid@) ==> (after.sessions.sessions@.contains_key(j)
            <==> before.sessions.sessions@.contains_key(j)),
        after.sessions.sessions@.contains_key(j) ==> after.sessions.sessions@[j]
            == before.sessions.sessions@[j],
        r is Ok <==> before.sessions.sessions@.contains_key(key16(sessionid@)),
        r is Err ==> r->Err_0.status == Nfs4Status::BadSession,
        after.clients == before.clients,
        after.opens == before.opens,
        after.locks == before.locks,
{
}

/// A client that has taken back all it had may open files from then on; nothing changes for other
/// clients.
pub proof fn law_reclaims_are_complete_for_the_one_who_says_so(
    before: CompoundHandler,
    after: CompoundHandler,
    ctx: CompoundContext,
    r: Nfs4Result<Vec<u8>>,
    c: Clientid4,
)
    requires
        after.has_noted_reclaim(&before, ctx, r),
        before.clients.clients@.contains_key(c),
    ensures
        r is Ok,
        r->Ok_0@.len() == 0,
        after.clients.clients@.contains_key(c),
        ctx.clientid == Some(c) ==> after.clients.clients@[c] == (ClientState {
            reclaim_complete: true,
            ..before.clients.clients@[c]
        }),
        ctx.clientid != Some(c) ==> after.clients.clients@[c] == before.clients.clients@[c],
{
    assert(after.clients.clients@.dom().contains(c) == before.clients.clients@.dom().contains(c));
}

// ---------------------------------------------------------------------------
// Clients
// ---------------------------------------------------------------------------

/// Who a client is it tells by a name and by a number that changes when it starts anew. A new name
/// makes a new client, which has yet to be confirmed and may not take anything back; a known name
/// with the same number is the same client; with another number the one from before is forgotten.
/// Other clients stay.
pub proof fn law_client_goes_by_its_name_and_number(
    before: ClientManager,
    after: ClientManager,
    now: Duration,
    owner: ClientOwner4,
    r: Nfs4Result<(Clientid4, u32, u32)>,
    c: Clientid4,
    other: Clientid4,
)
    requires
        before.wf(),
        after.has_exchanged(&before, now, owner, r),
        before.next_clientid <= 0xffff_ffff,
        before.owned_by(c, owner.co_ownerid@),
        before.clients@.contains_key(other),
        other != c,
    ensures
        r is Ok,
        before.clients@[c].owner.co_verifier@ == owner.co_verifier@ ==> {
            &&& r->Ok_0.0 == c
            &&& r->Ok_0.1 == before.clients@[c].create_session_sequence
            &&& after.clients@[c] == (ClientState { last_renew: now, ..before.clients@[c] })
        },
        before.clients@[c].owner.co_verifier@ != owner.co_verifier@ ==> {
            &&& r->Ok_0.0 != c
            &&& r->Ok_0.1 == 1
            &&& !after.clients@.contains_key(c)
            &&& !before.clients@.contains_key(r->Ok_0.0)
            &&& after.clients@.contains_key(r->Ok_0.0)
            &&& after.clients@[r->Ok_0.0].owner == owner
            &&& !after.clients@[r->Ok_0.0].confirmed
            &&& !after.clients@[r->Ok_0.0].reclaim_complete
            &&& !after.clients@[r->Ok_0.0].allow_reclaim
            &&& after.clients@[r->Ok_0.0].last_renew == now
        },
        after.clients@.contains_key(other),
        after.clients@[other] == before.clients@[other],
{
    let known = before.client_of(owner.co_ownerid@);
    assert(known == Some(c));
    if before.clients@[c].owner.co_verifier@ == owner.co_verifier@ {
        assert(after.clients@.dom().contains(other) == before.clients@.dom().contains(other));
        assert(after.clients@.contains_key(other));
    } else {
        let id = r->Ok_0.0;
        let kept = before.clients@.remove(c);
        assert(kept.contains_key(other));
        assert(after.clients@.remove(id).contains_key(other));
        assert(after.clients@.remove(id)[other] == kept[other]);
        if after.clients@.contains_key(c) {
            assert(after.clients@.dom().contains(c));
            assert(kept.dom().insert(id).contains(c));
        }
        assert(after.clients@.dom().contains(id));
    }
}

/// A client that tells who it is learns its id and the number of its next session.
pub proof fn law_client_is_told_its_id(
    before: CompoundHandler,
    after: CompoundHandler,
    args: ExchangeIdArgs,
    r: Nfs4Result<Vec<u8>>,
)
    requires
        after.has_exchanged(&before, args, r),
        r is Ok,
    ensures
        exists|now: Duration, e: Nfs4Result<(Clientid4, u32, u32)>|
            {
                &&& #[trigger] after.clients.has_exchanged(
                    &before.clients,
                    now,
                    args.client_owner,
                    e,
                )
                &&& e is Ok
                &&& be64_at(r->Ok_0@) == e->Ok_0.0
                &&& be32_at(r->Ok_0@.skip(8)) == e->Ok_0.1
                &&& be32_at(r->Ok_0@.skip(12)) == 0x0001_0001
                &&& be32_at(r->Ok_0@.skip(16)) == 0
            },
        after == (CompoundHandler { clients: after.clients, ..before }),
{
    let (now, e) = choose|now: Duration, e: Nfs4Result<(Clientid4, u32, u32)>|
        {
            &&& #[trigger] after.clients.has_exchanged(
                &before.clients,
                now,
                args.client_owner,
                e,
            )
            &&& match e {
                Ok((clientid, seqid, _)) => crate::ops::gives(
                    r,
                    CompoundHandler::exchange_bytes(clientid, seqid),
                ),
                Err(_) => crate::error::fails_with(r, Nfs4Status::Serverfault),
            }
        };
    let told = r->Ok_0@;
    be64_round_trip(e->Ok_0.0, told.skip(8));
    be32_round_trip(e->Ok_0.1, told.skip(12));
    be32_round_trip(0x0001_0001, told.skip(16));
    be32_round_trip(0, told.skip(20));
    assert(told =~= be64(e->Ok_0.0) + told.skip(8));
    assert(told.skip(8) =~= be32(e->Ok_0.1) + told.skip(12));
    assert(told.skip(12) =~= be32(0x0001_0001) + told.skip(16));
    assert(told.skip(16) =~= be32(0) + told.skip(20));
}

/// A client is confirmed by its id, and only it: it is confirmed then. One that is not known is
/// refused.
pub proof fn law_confirmed_client_is_the_one_named(
    before: CompoundHandler,
    after: CompoundHandler,
    c: Clientid4,
    ctx: CompoundContext,
    ctx2: CompoundContext,
    r: Nfs4Result<Vec<u8>>,
    other: Clientid4,
)
    requires
        after.has_confirmed_client(&before, c, ctx, ctx2, r),
    ensures
        if before.clients.clients@.contains_key(c) {
            &&& r is Ok
            &&& r->Ok_0@.len() == 0
            &&& ctx2.clientid == Some(c)
            &&& after.clients.clients@[c].confirmed
            &&& after.clients.clients@[c].reclaim_complete
                == before.clients.clients@[c].reclaim_complete
            &&& after.clients.clients@[c].owner == before.clients.clients@[c].owner
            &&& other != c && before.clients.clients@.contains_key(other)
                ==> after.clients.clients@.contains_key(other) && after.clients.clients@[other]
                == before.clients.clients@[other]
        } else {
            r is Err && r->Err_0.status == Nfs4Status::StaleClientid && after == before
        },
{
    assert(before.clients.clients@.contains_key(c) ==> (after.clients.clients@.dom().contains(other)
        == before.clients.clients@.dom().contains(other)));
}

/// A lease is renewed for the client that is named; one that is not known is refused.
pub proof fn law_renewed_lease_is_that_of_the_one_named(
    before: CompoundHandler,
    after: CompoundHandler,
    c: Clientid4,
    ctx: CompoundContext,
    ctx2: CompoundContext,
    r: Nfs4Result<Vec<u8>>,
    other: Clientid4,
)
    requires
        after.has_renewed(&before, c, ctx, ctx2, r),
    ensures
        r is Ok <==> before.clients.clients@.contains_key(c),
        r is Err ==> r->Err_0.status == Nfs4Status::StaleClientid && ctx2 == ctx,
        r is Ok ==> r->Ok_0@.len() == 0 && ctx2.clientid == Some(c),
        other != c && before.clients.clients@.contains_key(other) ==> after.clients.clients@[other]
            == before.clients.clients@[other],
        before.clients.clients@.contains_key(c) ==> after.clients.clients@[c] == (ClientState {
            last_renew: after.clients.clients@[c].last_renew,
            ..before.clients.clients@[c]
        }),
{
    assert(after.clients.clients@.dom().contains(other) == before.clients.clients@.dom().contains(
        other,
    ));
    if before.clients.clients@.contains_key(other) {
        assert(after.clients.clients@.contains_key(other));
    }
}

/// A client is over when more time has passed than its lease lasts since it was last heard of.
pub proof fn law_client_is_over_after_its_lease(c: ClientState, now: Duration)
    ensures
        c.expired_at(now) <==> now.nanos > c.last_renew.nanos + c.lease_time.nanos,
{
}

// ---------------------------------------------------------------------------
// Handles
// ---------------------------------------------------------------------------

/// The root has a handle that everyone can go to, and its path is "/".
pub proof fn law_root_is_where_requests_start(
    h: CompoundHandler,
    after: CompoundHandler,
    op: Nfs4Op,
    s: Seq<u8>,
    left: Seq<u8>,
    ctx: CompoundContext,
    ctx2: CompoundContext,
    step: OpStep,
    root: Fileid4,
)
    requires
        op == Nfs4Op::Putrootfh || op == Nfs4Op::Putpubfh,
        after.has_executed(&h, op, s, left, ctx, ctx2, step),
        h.fs.wf(),
        h.target(ctx2) == Ok::<Fileid4, Nfs4Status>(root),
    ensures
        left == s,
        after == h,
        went_well(step),
        step->result->Ok_0@.len() == 0,
        h.fs.path_cache.path_of(root) == Some(seq!['/']),
        ctx2.saved_fh == ctx.saved_fh,
        ctx2.current_fh is Some,
        ctx2.current_fh->Some_0@ == handle_of(h.fs.config.cluster_generation, root),
{
    reveal(CompoundHandler::has_run);
    assert(h.has_room(op));
    target_found(h, ctx2, ROOT_FILEID);
}

/// A handle that a client has got is taken as it is, if it was made by this server; otherwise it is
/// stale, or no handle at all, and the current one stays.
pub proof fn law_handle_is_taken_as_it_is(
    h: CompoundHandler,
    after: CompoundHandler,
    fh: Seq<u8>,
    t: Seq<u8>,
    left: Seq<u8>,
    ctx: CompoundContext,
    ctx2: CompoundContext,
    step: OpStep,
)
    requires
        fh.len() <= 128,
        after.has_executed(&h, Nfs4Op::Putfh, opaque(fh) + t, left, ctx, ctx2, step),
    ensures
        left == t,
        after == h,
        ctx2.saved_fh == ctx.saved_fh,
        if fh.len() != 16 {
            failed(step, Nfs4Status::Badhandle) && ctx2 == ctx
        } else if fh.take(8) != crate::bytes::le64(h.fs.config.cluster_generation) {
            failed(step, Nfs4Status::Stale) && ctx2 == ctx
        } else {
            &&& went_well(step)
            &&& step->result->Ok_0@.len() == 0
            &&& ctx2.current_fh is Some
            &&& ctx2.current_fh->Some_0@ == fh
        },
{
    reveal(CompoundHandler::has_run);
    assert(h.has_room(Nfs4Op::Putfh));
    opaque_round_trip(fh, MAX_FH_SIZE as nat, t);
    skip_prefix(opaque(fh), t);
    let got = choose|got: Nfs4Result<Nfs4FileHandle>|
        {
            &&& #[trigger] has_read::<Nfs4FileHandle>(opaque(fh) + t, left, got)
            &&& match got {
                Err(e) => after.has_refused(&h, ctx, ctx2, step, e),
                Ok(args) => {
                    &&& step is Done
                    &&& after == h
                    &&& h.putfh_result(ctx, ctx2, args, step->result)
                },
            }
        };
    assert(got->Ok_0@ == fh);
    if fh.len() == 16 {
        made_here(h.fs.config.cluster_generation, fh);
    }
}

proof fn made_here(generation: u64, fh: Seq<u8>)
    requires
        fh.len() == 16,
    ensures
        crate::bytes::le64_at(fh) == generation <==> fh.take(8) == crate::bytes::le64(generation),
{
    crate::bytes::le64_round_trip(generation, fh, fh.skip(8));
    if fh.take(8) == crate::bytes::le64(generation) {
        assert(fh =~= crate::bytes::le64(generation) + fh.skip(8));
    }
}

/// Saving and restoring a handle lead to where the request was: what is saved is the current handle,
/// which stays, and what is restored is the saved one, of which there is none any more.
pub proof fn law_saving_keeps_and_restoring_goes_back(
    h: CompoundHandler,
    after: CompoundHandler,
    op: Nfs4Op,
    s: Seq<u8>,
    left: Seq<u8>,
    ctx: CompoundContext,
    ctx2: CompoundContext,
    step: OpStep,
)
    requires
        after.has_executed(&h, op, s, left, ctx, ctx2, step),
        op == Nfs4Op::Savefh || op == Nfs4Op::Restorefh,
    ensures
        left == s,
        after == h,
        op == Nfs4Op::Savefh ==> {
            &&& went_well(step)
            &&& ctx2.current_fh == ctx.current_fh
            &&& ctx2.saved_fh is Some <==> ctx.current_fh is Some
            &&& ctx.current_fh is Some ==> ctx2.saved_fh->Some_0@ == ctx.current_fh->Some_0@
        },
        op == Nfs4Op::Restorefh && ctx.saved_fh is Some ==> {
            &&& went_well(step)
            &&& ctx2.current_fh == ctx.saved_fh
            &&& ctx2.saved_fh is None
        },
        op == Nfs4Op::Restorefh && ctx.saved_fh is None ==> failed(step, Nfs4Status::Restorefh)
            && ctx2 == ctx,
{
    reveal(CompoundHandler::has_run);
    assert(h.has_room(op));
}

/// A client that asks is told the current handle, byte for byte.
pub proof fn law_handle_is_told_as_it_is(
    h: CompoundHandler,
    after: CompoundHandler,
    s: Seq<u8>,
    left: Seq<u8>,
    ctx: CompoundContext,
    ctx2: CompoundContext,
    step: OpStep,
)
    requires
        after.has_executed(&h, Nfs4Op::Getfh, s, left, ctx, ctx2, step),
    ensures
        left == s,
        after == h,
        ctx2 == ctx,
        match ctx.current_fh {
            Some(fh) => {
                let told = step->result->Ok_0@;
                &&& went_well(step)
                &&& fh@.len() <= u32::MAX ==> be32_at(told) == fh@.len()
                &&& told.len() >= 4 + fh@.len()
                &&& told.subrange(4, 4 + fh@.len() as int) == fh@
            },
            None => failed(step, Nfs4Status::Nofilehandle),
        },
{
    reveal(CompoundHandler::has_run);
    assert(h.has_room(Nfs4Op::Getfh));
    if let Some(fh) = ctx.current_fh {
        let told = opaque(fh@);
        assert(told.subrange(4, 4 + fh@.len() as int) =~= fh@);
        be32_round_trip(fh@.len() as u32, told.skip(4));
        assert(told =~= be32(fh@.len() as u32) + told.skip(4));
    }
}

/// Only what makes clients and sessions, gives them up or binds a connection, and what is no
/// operation, may run without a session.
pub proof fn law_operations_run_in_sessions(op: Nfs4Op)
    ensures
        !CompoundHandler::in_session(op) <==> op.code_of() == 41 || op.code_of() == 42
            || op.code_of() == 43 || op.code_of() == 44 || op.code_of() == 57 || op.code_of()
            == 10044,
{
}

/// A client of the version before sessions makes itself known by a name and a number, which stand in
/// its request. It is told its id, and what it is to confirm that with; the rest of the request goes
/// on for it. A client that is known under that name and number and confirmed stays as it is; any
/// other is entered with that name and number.
pub proof fn law_client_without_sessions_goes_by_its_name_and_number(
    before: CompoundHandler,
    after: CompoundHandler,
    s: Seq<u8>,
    left: Seq<u8>,
    ctx: CompoundContext,
    ctx2: CompoundContext,
    step: OpStep,
)
    requires
        before.wf(),
        before.has_room(Nfs4Op::Setclientid),
        after.has_executed(&before, Nfs4Op::Setclientid, s, left, ctx, ctx2, step),
        SetclientidArgs::decoded_len(s) is Ok,
        before.clients.next_clientid <= 0xffff_ffff,
    ensures
        went_well(step),
        ({
            let reply = step->result->Ok_0@;
            let id = be64_at(reply);
            let name = opaque_at(s.skip(8));
            &&& reply.len() == 16
            &&& ctx2 == (CompoundContext { clientid: Some(id), ..ctx })
            &&& after.clients.clients@.contains_key(id)
            &&& after.clients.clients@[id].owner.co_ownerid@ == name
            &&& after.clients.clients@[id].owner.co_verifier@ == s.take(8)
            &&& forall|c: Clientid4| #[trigger]
                before.clients.owned_by(c, name) && before.clients.clients@[c].confirmed
                    && before.clients.clients@[c].owner.co_verifier@ == s.take(8) ==> id == c
                    && after.clients == before.clients
            &&& forall|c: Clientid4| #[trigger]
                before.clients.owned_by(c, name) && before.clients.clients@[c].owner.co_verifier@
                    != s.take(8) ==> id != c && !after.clients.clients@.contains_key(c)
        }),
{
    reveal(CompoundHandler::has_run);
    let args = choose|got: Nfs4Result<SetclientidArgs>|
        {
            &&& #[trigger] has_read::<SetclientidArgs>(s, left, got)
            &&& match got {
                Err(e) => after.has_refused(&before, ctx, ctx2, step, e),
                Ok(args) => {
                    &&& step is Done
                    &&& after.has_set_clientid(&before, args, ctx, ctx2, step->result)
                },
            }
        };
    let a = args->Ok_0;
    crate::laws_order::law_setclientid_args_stands_in_order(a, s);
    let set = choose|set: Nfs4Result<(Clientid4, [u8; 8])>|
        {
            &&& #[trigger] after.has_set_client(&before, a.client_id@, a.verifier, set)
            &&& match set {
                Ok((clientid, confirm)) => {
                    &&& crate::ops::gives(step->result, be64(clientid) + confirm@)
                    &&& ctx2 == CompoundContext { clientid: Some(clientid), ..ctx }
                },
                Err(_) => crate::error::fails_with(step->result, Nfs4Status::Serverfault) && ctx2
                    == ctx,
            }
        };
    let known = before.clients.client_of(a.client_id@);
    assert forall|c: Clientid4| #[trigger] before.clients.owned_by(c, a.client_id@) implies known
        == Some(c) by {}
    if known is Some && before.clients.clients@[known->Some_0].owner.co_verifier@ == a.verifier@
        && before.clients.clients@[known->Some_0].confirmed {
        assert(before.clients.owned_by(known->Some_0, a.client_id@));
    } else {
        let (now, owner, e) = choose|
            now: Duration,
            owner: ClientOwner4,
            e: Nfs4Result<(Clientid4, u32, u32)>,
        |
            {
                &&& #[trigger] after.clients.has_exchanged(&before.clients, now, owner, e)
                &&& owner.co_ownerid@ == a.client_id@
                &&& owner.co_verifier == a.verifier
                &&& match e {
                    Ok((clientid, _, _)) => set is Ok && set->Ok_0.0 == clientid,
                    Err(_) => crate::error::fails_with(set, Nfs4Status::Serverfault),
                }
            };
        let id = e->Ok_0.0;
        if known is Some {
            assert(before.clients.owned_by(known->Some_0, a.client_id@));
        }
        assert(after.clients.clients@.dom().contains(id));
    }
    be64_round_trip(set->Ok_0.0, set->Ok_0.1@);
}

/// Files are got at by user numbers (1), and in no other way: so it is told of any name in the
/// current directory, and of the current file, which is then no longer current.
pub proof fn law_files_are_got_at_by_user_numbers(
    before: CompoundHandler,
    after: CompoundHandler,
    s: Seq<u8>,
    left: Seq<u8>,
    ctx: CompoundContext,
    ctx2: CompoundContext,
    step: OpStep,
)
    requires
        after.has_executed(&before, Nfs4Op::SecinfoNoName, s, left, ctx, ctx2, step),
        s.len() >= 4,
    ensures
        after == before,
        ctx.current_fh is None ==> failed(step, Nfs4Status::Nofilehandle),
        ctx.current_fh is Some ==> {
            &&& went_well(step)
            &&& step->result->Ok_0@.len() == 8
            &&& be32_at(step->result->Ok_0@) == 1
            &&& be32_at(step->result->Ok_0@.skip(4)) == 1
            &&& ctx2.current_fh is None
            &&& ctx2.saved_fh == ctx.saved_fh
        },
{
    reveal(CompoundHandler::has_run);
    assert(before.has_room(Nfs4Op::SecinfoNoName));
    one_flavor();
}

proof fn one_flavor()
    ensures
        be32_at(be32(1) + be32(1)) == 1,
        be32_at((be32(1) + be32(1)).skip(4)) == 1,
        (be32(1) + be32(1)).len() == 8,
{
    be32_round_trip(1, be32(1));
    skip_prefix(be32(1), be32(1));
    be32_round_trip(1, Seq::empty());
    assert(be32(1) + Seq::<u8>::empty() =~= be32(1));
}

/// Of a name, how it is got at is asked for in the current directory, and told whatever is found.
pub proof fn law_name_is_got_at_by_user_numbers(
    before: CompoundHandler,
    after: CompoundHandler,
    s: Seq<u8>,
    left: Seq<u8>,
    ctx: CompoundContext,
    ctx2: CompoundContext,
    step: OpStep,
    dir: Fileid4,
    then: CompoundHandler,
    answer: Nfs4Result<FsAnswer>,
    ctx3: CompoundContext,
    step2: OpStep,
)
    requires
        after.has_executed(&before, Nfs4Op::Secinfo, s, left, ctx, ctx2, step),
        Vec::<u8>::decoded_len(s) is Ok,
        ctx.current_fh is Some,
        ctx.current_fh->Some_0@ == handle_of(before.fs.config.cluster_generation, dir),
        step is Call ==> then.has_resumed(&after, step->task, answer, ctx2, ctx3, step2),
    ensures
        step is Call,
        step->call is Lookup,
        step->call->Lookup_parent == dir,
        step->call->Lookup_name@ == crate::text::lossy_text(opaque_at(s)),
        went_well(step2),
        step2->result->Ok_0@.len() == 8,
        be32_at(step2->result->Ok_0@) == 1,
        be32_at(step2->result->Ok_0@.skip(4)) == 1,
{
    reveal(CompoundHandler::has_run);
    reveal(CompoundHandler::has_resumed);
    assert(before.has_room(Nfs4Op::Secinfo));
    target_found(before, ctx, dir);
    one_flavor();
}

/// Operations that are not offered are told so, and change nothing: those on layouts and devices,
/// on callbacks and connections, on attributes of their own, on single stateids, and what is no
/// operation at all.
pub proof fn law_operations_that_are_not_offered_change_nothing(
    before: CompoundHandler,
    after: CompoundHandler,
    op: Nfs4Op,
    s: Seq<u8>,
    left: Seq<u8>,
    ctx: CompoundContext,
    ctx2: CompoundContext,
    step: OpStep,
)
    requires
        after.has_executed(&before, op, s, left, ctx, ctx2, step),
        op == Nfs4Op::Layoutget || op == Nfs4Op::Layoutreturn || op == Nfs4Op::Layoutcommit || op
            == Nfs4Op::Getdeviceinfo || op == Nfs4Op::Getdevicelist || op == Nfs4Op::BackchannelCtl
            || op == Nfs4Op::BindConnToSession || op == Nfs4Op::Openattr || op
            == Nfs4Op::TestStateid || op == Nfs4Op::FreeStateid || op == Nfs4Op::Delegpurge || op
            == Nfs4Op::WantDelegation || op == Nfs4Op::SetSsv || op == Nfs4Op::GetDirDelegation
            || op == Nfs4Op::DestroyClientid || op == Nfs4Op::Illegal,
    ensures
        failed(step, Nfs4Status::Notsupp),
        after == before,
        ctx2 == ctx,
        left == s,
{
    reveal(CompoundHandler::has_run);
    assert(before.has_room(op));
}

} // verus!
