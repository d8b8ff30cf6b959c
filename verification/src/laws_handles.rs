//! What operations need of the current file, and how what is handed out is numbered and counted.

use crate::args::{CommitArgs, ReadArgs, ReaddirArgs, SetattrArgs, WriteArgs};
use crate::bytes::{
    be32, be32_at, be32_round_trip, be64, be64_at, be64_round_trip, le32, le32_at, le32_round_trip,
    le64, le64_at, le64_round_trip, opaque, zeros,
};
use crate::client::client_id;
use crate::compound::{target_of, CompoundContext, CompoundHandler, Nfs4Op};
use crate::delegation::delegation_other;
use crate::error::{Nfs4Result, Nfs4Status};
use crate::laws_names::{failed, went_well};
use crate::lock::{lock_other, LockManager, LockType4};
use crate::open::open_other;
use crate::ops::{OpStep, OpTask};
use crate::session::session_id;
use crate::storage::FsAnswer;
use crate::time::Duration;
use crate::types::{Fattr4, Fileid4, LockOwner4, Nfs4FileHandle, Stateid4};
use crate::xdr::Decode;
use vstd::prelude::*;

verus! {

/// A handle leads to a file where it is 16 bytes long and was handed out by the same cluster; else
/// it is no handle, or one of another time. Where there is no handle, that is told.
pub proof fn law_handle_leads_to_a_file_of_its_cluster(
    generation: u64,
    fh: Nfs4FileHandle,
    fileid: Fileid4,
)
    ensures
        target_of(generation, None) == Err::<Fileid4, Nfs4Status>(Nfs4Status::Nofilehandle),
        fh@.len() != 16 ==> target_of(generation, Some(fh)) == Err::<Fileid4, Nfs4Status>(
            Nfs4Status::Badhandle,
        ),
        fh@.len() == 16 && le64_at(fh@) != generation ==> target_of(generation, Some(fh)) == Err::<
            Fileid4,
            Nfs4Status,
        >(Nfs4Status::Stale),
        fh@.len() == 16 && le64_at(fh@) == generation ==> target_of(generation, Some(fh)) == Ok::<
            Fileid4,
            Nfs4Status,
        >(le64_at(fh@.skip(8))),
{
}

/// Whether an operation is one of those that act on the current file, with arguments that can be
/// read.
pub open spec fn acts_on_the_current_file(op: Nfs4Op, s: Seq<u8>) -> bool {
    ||| op == Nfs4Op::Lookupp
    ||| op == Nfs4Op::Readlink
    ||| op == Nfs4Op::Getfh
    ||| op == Nfs4Op::Commit && CommitArgs::decoded_len(s) is Ok
    ||| op == Nfs4Op::Read && ReadArgs::decoded_len(s) is Ok
    ||| op == Nfs4Op::Write && WriteArgs::decoded_len(s) is Ok
    ||| op == Nfs4Op::Readdir && ReaddirArgs::decoded_len(s) is Ok
    ||| op == Nfs4Op::Setattr && SetattrArgs::decoded_len(s) is Ok
    ||| op == Nfs4Op::Verify && Fattr4::decoded_len(s) is Ok
    ||| op == Nfs4Op::Nverify && Fattr4::decoded_len(s) is Ok
    ||| op == Nfs4Op::Secinfo && Vec::<u8>::decoded_len(s) is Ok
}

/// Without a current file nothing is done that acts on it, and nothing changes.
pub proof fn law_current_file_is_needed(
    before: CompoundHandler,
    after: CompoundHandler,
    op: Nfs4Op,
    s: Seq<u8>,
    left: Seq<u8>,
    ctx: CompoundContext,
    ctx2: CompoundContext,
    step: OpStep,
)
    requires
        after.has_executed(&before, op, s, left, ctx, ctx2, step),
        ctx.current_fh is None,
        acts_on_the_current_file(op, s),
    ensures
        failed(step, Nfs4Status::Nofilehandle),
        after == before,
        ctx2 == ctx,
{
    reveal(CompoundHandler::has_run);
    assert(before.has_room(op));
}

proof fn le_words(a: u32, b: u32, c: u32)
    ensures
        ({
            let s = le32(a) + le32(b) + le32(c);
            &&& s.len() == 12
            &&& le32_at(s) == a
            &&& le32_at(s.skip(4)) == b
            &&& le32_at(s.skip(8)) == c
        }),
{
    let none = Seq::<u8>::empty();
    let (x, y, z) = (le32(a), le32(b), le32(c));
    let s = x + y + z;
    le32_round_trip(a, none, y + z);
    le32_round_trip(b, none, z);
    le32_round_trip(c, none, none);
    assert(s =~= x + (y + z));
    assert(s.skip(4) =~= y + z);
    assert(s.skip(8) =~= z + none);
}

/// What is handed out is numbered by when the server started and how many were handed out before:
/// open files, locks, delegations and sessions each in their own way, so that none is taken for
/// another.
pub proof fn law_what_is_handed_out_is_numbered(boot: u64, n: u32, count: u64)
    ensures
        open_other(boot, n).len() == 12,
        le32_at(open_other(boot, n)) == boot as u32,
        le32_at(open_other(boot, n).skip(4)) == n,
        le32_at(open_other(boot, n).skip(8)) == 0,
        lock_other(boot, n).len() == 12,
        le32_at(lock_other(boot, n)) == 0xffff_ffff - (boot as u32),
        le32_at(lock_other(boot, n).skip(4)) == n,
        le32_at(lock_other(boot, n).skip(8)) == 0,
        delegation_other(n).len() == 12,
        le32_at(delegation_other(n)) == 0xDE1E_0000,
        le32_at(delegation_other(n).skip(4)) == n,
        session_id(boot, count).len() == 16,
        le64_at(session_id(boot, count)) == boot,
        le64_at(session_id(boot, count).skip(8)) == count,
{
    let b = boot as u32;
    assert(b ^ 0xffff_ffffu32 == 0xffff_ffff - b) by (bit_vector);
    le_words(b, n, 0);
    le_words(b ^ 0xffff_ffffu32, n, 0);
    let none = Seq::<u8>::empty();
    let d = delegation_other(n);
    le32_round_trip(0xDE1E_0000, none, le32(n) + zeros(4));
    le32_round_trip(n, none, zeros(4));
    assert(d =~= le32(0xDE1E_0000) + (le32(n) + zeros(4)));
    assert(d.skip(4) =~= le32(n) + zeros(4));
    let s = session_id(boot, count);
    le64_round_trip(boot, none, le64(count));
    le64_round_trip(count, none, none);
    assert(s.skip(8) =~= le64(count) + none);
}

/// A client is numbered by when the server started in the upper half of its id, and by how many came
/// before it in the lower.
pub proof fn law_client_is_numbered_by_start_and_count(boot: u64, n: u64)
    ensures
        client_id(boot, n) / 0x1_0000_0000 == boot % 0x1_0000_0000,
        client_id(boot, n) % 0x1_0000_0000 == n % 0x1_0000_0000,
{
}

/// Behind its id, a client is told who answers it: a server that is named `curvine`, of the scope
/// `curvine.local`.
pub proof fn law_server_tells_its_name(clientid: u64, seqid: u32)
    ensures
        CompoundHandler::exchange_bytes(clientid, seqid).skip(20) == be64(0) + opaque(
            seq![99u8, 117u8, 114u8, 118u8, 105u8, 110u8, 101u8],
        ) + opaque(
            seq![
                99u8,
                117u8,
                114u8,
                118u8,
                105u8,
                110u8,
                101u8,
                46u8,
                108u8,
                111u8,
                99u8,
                97u8,
                108u8,
            ],
        ) + be32(0),
{
    let name = opaque(CompoundHandler::server_name());
    let scope = opaque(CompoundHandler::server_scope());
    let head = be64(clientid) + be32(seqid) + be32(0x0001_0001) + be32(0);
    let rest = be64(0) + name + scope + be32(0);
    assert(be64(clientid).len() == 8);
    assert(head.len() == 20);
    assert(CompoundHandler::exchange_bytes(clientid, seqid) =~= head + rest);
    crate::bytes::skip_prefix(head, rest);
}

/// A further name changes its directory at once, and is told as a change from 0 to 1.
pub proof fn law_further_name_is_told_as_a_change(
    before: CompoundHandler,
    after: CompoundHandler,
    answer: FsAnswer,
    ctx: CompoundContext,
    ctx2: CompoundContext,
    step: OpStep,
)
    requires
        after.has_resumed(&before, OpTask::Link, Ok(answer), ctx, ctx2, step),
    ensures
        went_well(step),
        step->result->Ok_0@.len() == 20,
        be32_at(step->result->Ok_0@) == 1,
        be64_at(step->result->Ok_0@.skip(4)) == 0,
        be64_at(step->result->Ok_0@.skip(12)) == 1,
        after == before,
        ctx2 == ctx,
{
    reveal(CompoundHandler::has_resumed);
    let r = step->result->Ok_0@;
    let (a, b, c) = (be32(1), be64(0), be64(1));
    let none = Seq::<u8>::empty();
    assert(a.len() == 4 && b.len() == 8 && c.len() == 8);
    be32_round_trip(1, b + c);
    be64_round_trip(0, c);
    be64_round_trip(1, none);
    assert(r =~= a + (b + c));
    assert(r.skip(4) =~= b + c);
    assert(r.skip(12) =~= c + none);
}

/// Locks are counted by what came of them: those that were granted, those that would have been
/// waited for, and those that were denied.
pub proof fn law_locks_are_counted(
    before: LockManager,
    after: LockManager,
    now: Duration,
    owner: LockOwner4,
    fileid: Fileid4,
    kind: LockType4,
    offset: u64,
    length: u64,
    blocking: bool,
    existing: Option<Stateid4>,
    r: Nfs4Result<Stateid4>,
)
    requires
        after.has_locked(
            &before,
            now,
            owner,
            fileid,
            kind,
            offset,
            length,
            blocking,
            existing,
            r,
        ),
        before.stats.total_granted < u32::MAX,
        before.stats.total_blocked < u32::MAX,
        before.stats.total_denied < u32::MAX,
    ensures
        after.stats.total_granted == before.stats.total_granted + if r is Ok {
            1int
        } else {
            0int
        },
        after.stats.total_blocked == before.stats.total_blocked + if r is Err
            && r->Err_0.status == Nfs4Status::Denied && blocking {
            1int
        } else {
            0int
        },
        after.stats.total_denied == before.stats.total_denied + if r is Err && r->Err_0.status
            == Nfs4Status::Denied && !blocking {
            1int
        } else {
            0int
        },
        after.stats.total_released == before.stats.total_released,
{
}

/// Locks that are given back are counted.
pub proof fn law_released_locks_are_counted(
    before: LockManager,
    after: LockManager,
    now: Duration,
    sid: Stateid4,
    offset: u64,
    length: u64,
    r: Nfs4Result<Stateid4>,
)
    requires
        after.has_unlocked(&before, now, sid, offset, length, r),
        before.stats.total_released < u32::MAX,
    ensures
        after.stats.total_released == before.stats.total_released + if r is Ok {
            1int
        } else {
            0int
        },
        after.stats.total_granted == before.stats.total_granted,
        after.stats.total_denied == before.stats.total_denied,
{
}

} // verus!
