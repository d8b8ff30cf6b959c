//! What locking ranges of files comes to, from the request to what the client is told.

use crate::args::{LockHead, LocktArgs, LockuArgs, NewLocker, OldLocker, ReleaseLockownerArgs};
use crate::bytes::{
    be32, be32_at, be32_round_trip, be64, be64_at, be64_round_trip, key12, opaque, XdrError,
};
use crate::compound::{CompoundContext, CompoundHandler, Nfs4Op};
use crate::error::{Nfs4Result, Nfs4Status};
use crate::fs::handle_of;
use crate::laws_data::{can_name, kinds_of_stateid, target_found};
use crate::laws_names::{failed, went_well};
use crate::lock::{
    holds, law_adding_locks_exactly_the_range, law_unlock_frees_exactly_the_range, range_end,
    without_range, LockEntry, LockManager, LockState, LockType4,
};
use crate::op_lock::Locker;
use crate::ops::OpStep;
use crate::time::Duration;
use crate::types::{Fileid4, LockOwner4, Stateid4};
use crate::xdr::{opaque_at, Decode, XDR};
use vstd::prelude::*;

verus! {

/// Whether a byte lies in a range. A range of no length, of the greatest length, or that would end
/// behind the last byte there can be, goes to the end.
pub open spec fn lies_in(b: int, offset: u64, length: u64) -> bool {
    &&& offset <= b
    &&& b < u64::MAX
    &&& length == 0 || length == u64::MAX || offset + length > u64::MAX || b < offset + length
}

/// Whether a state has locked a byte of a file in the given way.
pub open spec fn locked(s: LockState, fileid: Fileid4, kind: LockType4, b: u64) -> bool {
    exists|i: int|
        0 <= i < s.lock_entries@.len() && (#[trigger] s.lock_entries@[i]).fileid == fileid
            && s.lock_entries@[i].lock_type == kind && lies_in(
            b as int,
            s.lock_entries@[i].offset,
            s.lock_entries@[i].length,
        )
}

/// Whether a lock is one for writing.
pub open spec fn for_writing(e: LockEntry) -> bool {
    e.lock_type == LockType4::WriteLt || e.lock_type == LockType4::WritewLt
}

/// Whether two ranges have a byte in common.
pub open spec fn share_a_byte(offset: u64, length: u64, offset2: u64, length2: u64) -> bool {
    exists|b: int| #[trigger] lies_in(b, offset, length) && lies_in(b, offset2, length2)
}

/// Whether a range cannot be locked for an owner: another one has locked a byte of it in the same
/// file, and one of the two writes.
pub open spec fn another_holds(
    m: LockManager,
    fileid: Fileid4,
    writes: bool,
    offset: u64,
    length: u64,
    clientid: u64,
    owner: Seq<u8>,
) -> bool {
    exists|k: u128, i: int|
        {
            let s = m.lock_states@[k];
            let e = #[trigger] m.lock_states@[k].lock_entries@[i];
            &&& m.lock_states@.contains_key(k)
            &&& !(s.owner.clientid == clientid && s.owner.owner@ == owner)
            &&& 0 <= i < s.lock_entries@.len()
            &&& e.fileid == fileid
            &&& writes || for_writing(e)
            &&& share_a_byte(e.offset, e.length, offset, length)
        }
}

/// A range of a lock holds the bytes that its numbers say.
pub proof fn law_range_holds_its_bytes(e: LockEntry, b: u64)
    ensures
        e.covers(b) <==> lies_in(b as int, e.offset, e.length),
{
}

proof fn meeting_is_sharing(e: LockEntry, offset: u64, length: u64)
    ensures
        e.meets(offset, length) <==> share_a_byte(e.offset, e.length, offset, length),
{
    if e.meets(offset, length) {
        let b = if e.offset < offset {
            offset as int
        } else {
            e.offset as int
        };
        assert(lies_in(b, e.offset, e.length));
        assert(lies_in(b, offset, length));
    }
    if share_a_byte(e.offset, e.length, offset, length) {
        let b = choose|b: int| #[trigger]
            lies_in(b, e.offset, e.length) && lies_in(b, offset, length);
        assert(e.offset <= b < range_end(offset, length));
        assert(offset <= b < e.spec_end());
    }
}

/// A lock is refused for what another one holds, and for nothing else.
proof fn refused_for_what_another_holds(
    m: LockManager,
    fileid: Fileid4,
    kind: LockType4,
    offset: u64,
    length: u64,
    owner: LockOwner4,
)
    ensures
        m.blocked(fileid, kind, offset, length, owner) <==> another_holds(
            m,
            fileid,
            kind == LockType4::WriteLt || kind == LockType4::WritewLt,
            offset,
            length,
            owner.clientid,
            owner.owner@,
        ),
{
    let writes = kind == LockType4::WriteLt || kind == LockType4::WritewLt;
    if m.blocked(fileid, kind, offset, length, owner) {
        let k = choose|k: u128| #[trigger] m.in_the_way(k, fileid, kind, offset, length, owner);
        let s = m.lock_states@[k];
        let i = choose|i: int|
            0 <= i < s.lock_entries@.len() && (#[trigger] s.lock_entries@[i]).fileid == fileid
                && crate::lock::blocks(s.lock_entries@[i], kind, offset, length);
        meeting_is_sharing(s.lock_entries@[i], offset, length);
        assert(m.lock_states@[k].lock_entries@[i].fileid == fileid);
    }
    if another_holds(m, fileid, writes, offset, length, owner.clientid, owner.owner@) {
        let (k, i) = choose|k: u128, i: int|
            {
                let s = m.lock_states@[k];
                let e = #[trigger] m.lock_states@[k].lock_entries@[i];
                &&& m.lock_states@.contains_key(k)
                &&& !(s.owner.clientid == owner.clientid && s.owner.owner@ == owner.owner@)
                &&& 0 <= i < s.lock_entries@.len()
                &&& e.fileid == fileid
                &&& writes || for_writing(e)
                &&& share_a_byte(e.offset, e.length, offset, length)
            };
        let s = m.lock_states@[k];
        meeting_is_sharing(s.lock_entries@[i], offset, length);
        assert(crate::lock::blocks(s.lock_entries@[i], kind, offset, length));
        assert(m.in_the_way(k, fileid, kind, offset, length, owner));
    }
}

pub(crate) proof fn held_bytes(s: LockState, fileid: Fileid4, kind: LockType4, b: u64)
    ensures
        locked(s, fileid, kind, b) <==> holds(s.lock_entries@, fileid, kind, b),
{
    if locked(s, fileid, kind, b) {
        let i = choose|i: int|
            0 <= i < s.lock_entries@.len() && (#[trigger] s.lock_entries@[i]).fileid == fileid
                && s.lock_entries@[i].lock_type == kind && lies_in(
                b as int,
                s.lock_entries@[i].offset,
                s.lock_entries@[i].length,
            );
        assert(s.lock_entries@[i].covers(b));
    }
    if holds(s.lock_entries@, fileid, kind, b) {
        let i = choose|i: int|
            0 <= i < s.lock_entries@.len() && (#[trigger] s.lock_entries@[i]).fileid == fileid
                && s.lock_entries@[i].lock_type == kind && s.lock_entries@[i].covers(b);
        assert(s.lock_entries@[i].fileid == fileid);
    }
}

/// The kinds of lock have their numbers: 2 and 4 are for writing, 3 and 4 of those who are ready to
/// wait, and all else is for reading.
pub proof fn law_lock_kinds_have_their_numbers(code: u32)
    ensures
        LockType4::of_code(code).writes() <==> code == 2 || code == 4,
        crate::op_lock::waits(LockType4::of_code(code)) <==> code == 3 || code == 4,
        1 <= code <= 4 ==> LockType4::of_code(code).code_of() == code,
{
}

// ---------------------------------------------------------------------------
// Locking
// ---------------------------------------------------------------------------

/// Whether a range can be locked: it is not empty and does not end behind the last byte.
pub open spec fn good_range(offset: u64, length: u64) -> bool {
    length > 0 && (length == u64::MAX || offset + length <= u64::MAX)
}

/// The first lock of an owner goes by the file that it has open. A lock for reading needs one that
/// was opened for reading, a lock for writing one that was opened for writing; otherwise it fails
/// with `Openmode` and nothing is locked. Where it has what it needs, the lock is granted exactly if
/// no other owner holds a byte of the range in that file and one of the two writes; the owner then
/// holds the range of the request and nothing else, under a stateid of its own.
pub proof fn law_first_lock_goes_by_the_open_file(
    before: CompoundHandler,
    after: CompoundHandler,
    s: Seq<u8>,
    left: Seq<u8>,
    ctx: CompoundContext,
    ctx2: CompoundContext,
    step: OpStep,
    fileid: Fileid4,
)
    requires
        before.can_lock(),
        after.has_executed(&before, Nfs4Op::Lock, s, left, ctx, ctx2, step),
        s.len() >= 28,
        be32_at(s.skip(24)) == 1,
        NewLocker::decoded_len(s.skip(28)) is Ok,
        be32_at(s.skip(4)) == 0,
        !before.grace.active,
        !before.grace.change_req,
        ctx.current_fh is Some,
        ctx.current_fh->Some_0@ == handle_of(before.fs.config.cluster_generation, fileid),
        can_name(s.skip(32)),
        before.opens.states@.contains_key(key12(s.subrange(36, 48))),
        before.opens.states@[key12(s.subrange(36, 48))].seqid == be32_at(s.skip(32)),
        good_range(be64_at(s.skip(8)), be64_at(s.skip(16))),
    ensures
        ctx2 == ctx,
        after == (CompoundHandler { locks: after.locks, ..before }),
        ({
            let code = be32_at(s);
            let writes = code == 2 || code == 4;
            let offset = be64_at(s.skip(8));
            let length = be64_at(s.skip(16));
            let access = before.opens.states@[key12(s.subrange(36, 48))].share_access;
            let clientid = be64_at(s.skip(52));
            let owner = opaque_at(s.skip(60));
            if writes && access & 2 == 0 || !writes && access & 1 == 0 {
                failed(step, Nfs4Status::Openmode) && after == before
            } else if another_holds(before.locks, fileid, writes, offset, length, clientid, owner) {
                &&& failed(step, Nfs4Status::Denied)
                &&& after.locks.lock_states@ == before.locks.lock_states@
            } else {
                &&& went_well(step)
                &&& step->result->Ok_0@.len() == 16
                &&& be32_at(step->result->Ok_0@) == 1
                &&& {
                    let k = key12(step->result->Ok_0@.subrange(4, 16));
                    let new = after.locks.lock_states@[k];
                    &&& !before.locks.lock_states@.contains_key(k)
                    &&& after.locks.lock_states@.contains_key(k)
                    &&& after.locks.lock_states@.remove(k) == before.locks.lock_states@
                    &&& new.owner.clientid == clientid
                    &&& new.owner.owner@ == owner
                    &&& new.lock_entries@.len() == 1
                    &&& new.lock_entries@[0].fileid == fileid
                    &&& new.lock_entries@[0].lock_type.writes() == writes
                    &&& new.lock_entries@[0].offset == offset
                    &&& new.lock_entries@[0].length == length
                }
            }
        }),
{
    broadcast use crate::bytes::skip_skip;

    reveal(CompoundHandler::has_run);
    target_found(before, ctx, fileid);
    let t = s.skip(28);
    assert(LockHead::decoded_len(s) == Ok::<nat, XdrError>(28));
    let head = choose|head: LockHead| #[trigger]
        head.decodes_to(s) && {
            if CompoundHandler::grace_counts(head) && !before.grace.admits(head.reclaim != 0) {
                &&& crate::error::fails_with(
                    step->result,
                    crate::grace::GracePeriodManager::refusal(head.reclaim != 0),
                )
                &&& after == before
                &&& left == t
            } else if head.locker_type == 1 {
                exists|got: Nfs4Result<NewLocker>|
                    {
                        &&& #[trigger] crate::ops::has_read::<NewLocker>(t, left, got)
                        &&& match got {
                            Ok(n) => after.has_asked_for_lock(
                                &before,
                                ctx,
                                head,
                                Locker::New(n),
                                step->result,
                            ),
                            Err(e) => step->result is Err && step->result->Err_0 == e && after
                                == before,
                        }
                    }
            } else {
                exists|got: Nfs4Result<OldLocker>|
                    {
                        &&& #[trigger] crate::ops::has_read::<OldLocker>(t, left, got)
                        &&& match got {
                            Ok(o) => after.has_asked_for_lock(
                                &before,
                                ctx,
                                head,
                                Locker::Old(o),
                                step->result,
                            ),
                            Err(e) => step->result is Err && step->result->Err_0 == e && after
                                == before,
                        }
                    }
            }
        };
    assert(head.locktype == be32_at(s) && head.reclaim == 0 && head.offset == be64_at(s.skip(8))
        && head.length == be64_at(s.skip(16)) && head.locker_type == 1);
    let got = choose|got: Nfs4Result<NewLocker>|
        {
            &&& #[trigger] crate::ops::has_read::<NewLocker>(t, left, got)
            &&& match got {
                Ok(n) => after.has_asked_for_lock(
                    &before,
                    ctx,
                    head,
                    Locker::New(n),
                    step->result,
                ),
                Err(e) => step->result is Err && step->result->Err_0 == e && after == before,
            }
        };
    let n = got->Ok_0;
    assert(n.open_stateid.seqid == be32_at(s.skip(32)));
    assert(n.open_stateid.other@ == s.subrange(36, 48)) by {
        assert(s.skip(36).take(12) =~= s.subrange(36, 48));
    }
    assert(s.skip(32).subrange(4, 16) =~= s.subrange(36, 48));
    assert(n.clientid == be64_at(s.skip(52)));
    assert(n.owner@ == opaque_at(s.skip(60)));
    kinds_of_stateid(n.open_stateid, s.skip(32));
    asked_by_a_new_owner(before, after, ctx, head, n, fileid, step->result);
}

proof fn asked_by_a_new_owner(
    before: CompoundHandler,
    after: CompoundHandler,
    ctx: CompoundContext,
    head: LockHead,
    n: NewLocker,
    fileid: Fileid4,
    r: Nfs4Result<Vec<u8>>,
)
    requires
        after.has_asked_for_lock(&before, ctx, head, Locker::New(n), r),
        before.target(ctx) == Ok::<Fileid4, Nfs4Status>(fileid),
        good_range(head.offset, head.length),
        before.opens.fault(n.open_stateid) is None,
    ensures
        after == (CompoundHandler { locks: after.locks, ..before }),
        ({
            let writes = head.locktype == 2 || head.locktype == 4;
            let access = before.opens.states@[key12(n.open_stateid.other@)].share_access;
            if writes && access & 2 == 0 || !writes && access & 1 == 0 {
                r is Err && r->Err_0.status == Nfs4Status::Openmode && after == before
            } else if another_holds(
                before.locks,
                fileid,
                writes,
                head.offset,
                head.length,
                n.clientid,
                n.owner@,
            ) {
                &&& r is Err
                &&& r->Err_0.status == Nfs4Status::Denied
                &&& after.locks.lock_states@ == before.locks.lock_states@
            } else {
                &&& r is Ok
                &&& r->Ok_0@.len() == 16
                &&& be32_at(r->Ok_0@) == 1
                &&& {
                    let k = key12(r->Ok_0@.subrange(4, 16));
                    let new = after.locks.lock_states@[k];
                    &&& !before.locks.lock_states@.contains_key(k)
                    &&& after.locks.lock_states@.contains_key(k)
                    &&& after.locks.lock_states@.remove(k) == before.locks.lock_states@
                    &&& new.owner.clientid == n.clientid
                    &&& new.owner.owner@ == n.owner@
                    &&& new.lock_entries@.len() == 1
                    &&& new.lock_entries@[0].fileid == fileid
                    &&& new.lock_entries@[0].lock_type.writes() == writes
                    &&& new.lock_entries@[0].offset == head.offset
                    &&& new.lock_entries@[0].length == head.length
                }
            }
        }),
{
    let kind = LockType4::of_code(head.locktype);
    let locker = Locker::New(n);
    if before.lock_fault(ctx, head, locker) is None {
        let (now, owner, got) = choose|
            now: Duration,
            owner: LockOwner4,
            got: Nfs4Result<Stateid4>,
        |
            {
                &&& #[trigger] after.locks.has_locked(
                    &before.locks,
                    now,
                    owner,
                    before.target(ctx)->Ok_0,
                    kind,
                    head.offset,
                    head.length,
                    crate::op_lock::waits(kind),
                    locker.known(),
                    got,
                )
                &&& before.asks(locker, owner)
                &&& match got {
                    Ok(sid) => crate::ops::gives(r, sid.encoding()),
                    Err(e) => r is Err && r->Err_0 == e,
                }
            };
        refused_for_what_another_holds(
            before.locks,
            fileid,
            kind,
            head.offset,
            head.length,
            owner,
        );
        if got is Ok {
            told_stateid(got->Ok_0);
        }
    }
}

/// What a client is told of a stateid: its number, and the rest.
pub(crate) proof fn told_stateid(sid: Stateid4)
    ensures
        sid.encoding().len() == 16,
        be32_at(sid.encoding()) == sid.seqid,
        sid.encoding().subrange(4, 16) == sid.other@,
{
    be32_round_trip(sid.seqid, sid.other@);
    assert(sid.encoding() =~= be32(sid.seqid) + sid.other@);
    assert(sid.encoding().subrange(4, 16) =~= sid.other@);
}

/// A further lock of an owner goes by what it has locked already. It is granted exactly if no other
/// owner holds a byte of the range in the file and one of the two writes. The owner then holds what
/// it held and the range of the request, byte for byte, and is told the next number of its stateid;
/// what others hold stays.
pub proof fn law_further_lock_adds_its_range(
    before: CompoundHandler,
    after: CompoundHandler,
    ctx: CompoundContext,
    head: LockHead,
    o: OldLocker,
    fileid: Fileid4,
    r: Nfs4Result<Vec<u8>>,
    other: Fileid4,
    kind: LockType4,
    b: u64,
    j: u128,
)
    requires
        after.has_asked_for_lock(&before, ctx, head, Locker::Old(o), r),
        ctx.current_fh is Some,
        ctx.current_fh->Some_0@ == handle_of(before.fs.config.cluster_generation, fileid),
        good_range(head.offset, head.length),
        before.locks.lock_states@.contains_key(key12(o.lock_stateid.other@)),
    ensures
        after == (CompoundHandler { locks: after.locks, ..before }),
        ({
            let k = key12(o.lock_stateid.other@);
            let was = before.locks.lock_states@[k];
            let is = after.locks.lock_states@[k];
            if another_holds(
                before.locks,
                fileid,
                head.locktype == 2 || head.locktype == 4,
                head.offset,
                head.length,
                was.owner.clientid,
                was.owner.owner@,
            ) {
                &&& r is Err
                &&& r->Err_0.status == Nfs4Status::Denied
                &&& after.locks.lock_states@ == before.locks.lock_states@
            } else {
                &&& r is Ok
                &&& r->Ok_0@.len() == 16
                &&& be32_at(r->Ok_0@) == was.seqid.wrapping_add(1)
                &&& r->Ok_0@.subrange(4, 16) == was.stateid.other@
                &&& after.locks.lock_states@.contains_key(k)
                &&& is.seqid == was.seqid.wrapping_add(1)
                &&& is.owner == was.owner
                &&& locked(is, other, kind, b) <==> locked(was, other, kind, b) || other == fileid
                    && kind == LockType4::of_code(head.locktype) && lies_in(
                    b as int,
                    head.offset,
                    head.length,
                )
                &&& j != k ==> (after.locks.lock_states@.contains_key(j)
                    <==> before.locks.lock_states@.contains_key(j))
                &&& j != k && before.locks.lock_states@.contains_key(j)
                    ==> after.locks.lock_states@[j] == before.locks.lock_states@[j]
            }
        }),
{
    target_found(before, ctx, fileid);
    let k = key12(o.lock_stateid.other@);
    let code = LockType4::of_code(head.locktype);
    let locker = Locker::Old(o);
    assert(before.lock_fault(ctx, head, locker) is None);
    let (now, owner, got) = choose|now: Duration, owner: LockOwner4, got: Nfs4Result<Stateid4>|
        {
            &&& #[trigger] after.locks.has_locked(
                &before.locks,
                now,
                owner,
                before.target(ctx)->Ok_0,
                code,
                head.offset,
                head.length,
                crate::op_lock::waits(code),
                locker.known(),
                got,
            )
            &&& before.asks(locker, owner)
            &&& match got {
                Ok(sid) => crate::ops::gives(r, sid.encoding()),
                Err(e) => r is Err && r->Err_0 == e,
            }
        };
    let was = before.locks.lock_states@[k];
    let is = after.locks.lock_states@[k];
    refused_for_what_another_holds(before.locks, fileid, code, head.offset, head.length, owner);
    if got is Ok {
        told_stateid(got->Ok_0);
        let entry = LockEntry {
            fileid,
            lock_type: code,
            offset: head.offset,
            length: head.length,
            granted_time: now,
        };
        law_adding_locks_exactly_the_range(was.lock_entries@, entry, other, kind, b);
        held_bytes(was, other, kind, b);
        held_bytes(is, other, kind, b);
        law_range_holds_its_bytes(entry, b);
        assert(after.locks.lock_states@.dom().contains(j)
            == before.locks.lock_states@.dom().contains(j));
    }
}

/// A range that cannot be locked is refused, whoever asks.
pub proof fn law_bad_range_is_refused(
    before: CompoundHandler,
    after: CompoundHandler,
    ctx: CompoundContext,
    head: LockHead,
    n: NewLocker,
    fileid: Fileid4,
    r: Nfs4Result<Vec<u8>>,
)
    requires
        after.has_asked_for_lock(&before, ctx, head, Locker::New(n), r),
        ctx.current_fh is Some,
        ctx.current_fh->Some_0@ == handle_of(before.fs.config.cluster_generation, fileid),
        !good_range(head.offset, head.length),
    ensures
        r is Err,
        r->Err_0.status == Nfs4Status::Inval,
        after == before,
{
    target_found(before, ctx, fileid);
}

// ---------------------------------------------------------------------------
// Testing
// ---------------------------------------------------------------------------

/// Whether a client is told of a lock that another one holds: where it is, whether it writes, and
/// whose it is.
pub open spec fn tells_of(data: Seq<u8>, e: LockEntry, owner: LockOwner4) -> bool {
    &&& data.len() >= 32
    &&& be64_at(data) == e.offset
    &&& be64_at(data.skip(8)) == e.length
    &&& be32_at(data.skip(16)) == if for_writing(e) {
        2u32
    } else {
        1u32
    }
    &&& be64_at(data.skip(20)) == owner.clientid
    &&& opaque_at(data.skip(28)) == owner.owner@
}

/// Testing for a lock changes nothing. It goes well exactly if the lock would be granted, and
/// otherwise tells of a range in the file that another owner holds and that shares a byte with what
/// was asked for.
pub proof fn law_test_tells_who_holds_the_range(
    h: CompoundHandler,
    after: CompoundHandler,
    s: Seq<u8>,
    left: Seq<u8>,
    ctx: CompoundContext,
    ctx2: CompoundContext,
    step: OpStep,
    fileid: Fileid4,
)
    requires
        after.has_executed(&h, Nfs4Op::Lockt, s, left, ctx, ctx2, step),
        LocktArgs::decoded_len(s) is Ok,
        ctx.current_fh is Some,
        ctx.current_fh->Some_0@ == handle_of(h.fs.config.cluster_generation, fileid),
        good_range(be64_at(s.skip(4)), be64_at(s.skip(12))),
    ensures
        after == h,
        ctx2 == ctx,
        ({
            let code = be32_at(s);
            let offset = be64_at(s.skip(4));
            let length = be64_at(s.skip(12));
            let clientid = be64_at(s.skip(20));
            let owner = opaque_at(s.skip(28));
            if another_holds(
                h.locks,
                fileid,
                code == 2 || code == 4,
                offset,
                length,
                clientid,
                owner,
            ) {
                &&& step is Done
                &&& step->result is Err
                &&& step->result->Err_0.status == Nfs4Status::Denied ==> exists|k: u128, i: int|
                    {
                        let e = #[trigger] h.locks.lock_states@[k].lock_entries@[i];
                        let whose = h.locks.lock_states@[k].owner;
                        &&& h.locks.lock_states@.contains_key(k)
                        &&& !(whose.clientid == clientid && whose.owner@ == owner)
                        &&& 0 <= i < h.locks.lock_states@[k].lock_entries@.len()
                        &&& e.fileid == fileid
                        &&& share_a_byte(e.offset, e.length, offset, length)
                        &&& step->result->Err_0.data is Some
                        &&& whose.owner@.len() <= crate::xdr::XDR_MAX_DATA_SIZE ==> tells_of(
                            step->result->Err_0.data->Some_0@,
                            e,
                            whose,
                        )
                    }
                &&& (forall|k: u128| #[trigger]
                    h.locks.lock_states@.contains_key(k)
                        ==> h.locks.lock_states@[k].owner.owner@.len() < u32::MAX)
                    ==> step->result->Err_0.status == Nfs4Status::Denied
            } else {
                went_well(step) && step->result->Ok_0@.len() == 0
            }
        }),
{
    broadcast use crate::bytes::skip_skip;

    reveal(CompoundHandler::has_run);
    assert(h.has_room(Nfs4Op::Lockt));
    target_found(h, ctx, fileid);
    let got = choose|got: Nfs4Result<LocktArgs>|
        {
            &&& #[trigger] crate::ops::has_read::<LocktArgs>(s, left, got)
            &&& match got {
                Err(e) => after.has_refused(&h, ctx, ctx2, step, e),
                Ok(args) => {
                    &&& step is Done
                    &&& after == h
                    &&& ctx2 == ctx
                    &&& h.has_tested(ctx, args, step->result)
                },
            }
        };
    let args = got->Ok_0;
    let kind = LockType4::of_code(args.locktype);
    let owner = LockOwner4 { clientid: args.clientid, owner: args.owner };
    assert(args.locktype == be32_at(s) && args.offset == be64_at(s.skip(4)) && args.length
        == be64_at(s.skip(12)) && args.clientid == be64_at(s.skip(20)) && args.owner@ == opaque_at(
        s.skip(28),
    ));
    refused_for_what_another_holds(h.locks, fileid, kind, args.offset, args.length, owner);
    if h.locks.blocked(fileid, kind, args.offset, args.length, owner) {
        let (k, i) = choose|k: u128, i: int|
            {
                let l = h.locks.lock_states@[k];
                &&& h.locks.in_the_way(k, fileid, kind, args.offset, args.length, owner)
                &&& #[trigger] crate::op_lock::first_met(
                    h.locks.lock_states@[k],
                    fileid,
                    args.offset,
                    args.length,
                    i,
                )
                &&& if l.owner.encodable() {
                    crate::op_lock::is_denied(step->result, crate::op_lock::denied_bytes(l, i))
                } else {
                    crate::error::fails_with(step->result, Nfs4Status::Io)
                }
            };
        let l = h.locks.lock_states@[k];
        meeting_is_sharing(l.lock_entries@[i], args.offset, args.length);
        assert(h.locks.lock_states@[k].lock_entries@[i].fileid == fileid);
        if l.owner.owner@.len() <= crate::xdr::XDR_MAX_DATA_SIZE {
            denied_told(l, i);
        }
    }
}

proof fn denied_told(s: LockState, i: int)
    requires
        s.owner.owner@.len() <= crate::xdr::XDR_MAX_DATA_SIZE,
    ensures
        tells_of(crate::op_lock::denied_bytes(s, i), s.lock_entries@[i], s.owner),
{
    let e = s.lock_entries@[i];
    let data = crate::op_lock::denied_bytes(s, i);
    let how = if e.lock_type.writes() {
        2u32
    } else {
        1u32
    };
    let who = be64(s.owner.clientid) + opaque(s.owner.owner@);
    assert(data =~= be64(e.offset) + (be64(e.length) + (be32(how) + who)));
    be64_round_trip(e.offset, be64(e.length) + (be32(how) + who));
    be64_round_trip(e.length, be32(how) + who);
    be32_round_trip(how, who);
    be64_round_trip(s.owner.clientid, opaque(s.owner.owner@));
    crate::xdr::opaque_round_trip(
        s.owner.owner@,
        crate::xdr::XDR_MAX_DATA_SIZE as nat,
        Seq::empty(),
    );
    assert(opaque(s.owner.owner@) + Seq::<u8>::empty() =~= opaque(s.owner.owner@));
    assert(data.skip(8) =~= be64(e.length) + (be32(how) + who));
    assert(data.skip(16) =~= be32(how) + who);
    assert(data.skip(20) =~= who);
    assert(data.skip(28) =~= opaque(s.owner.owner@));
}

// ---------------------------------------------------------------------------
// Giving back
// ---------------------------------------------------------------------------

/// Giving a range back frees its bytes and no others: byte for byte, the owner holds what it held
/// outside of the range. It is told the next number of its stateid. What others hold stays.
pub proof fn law_unlock_gives_back_its_range(
    before: CompoundHandler,
    after: CompoundHandler,
    s: Seq<u8>,
    left: Seq<u8>,
    ctx: CompoundContext,
    ctx2: CompoundContext,
    step: OpStep,
    fileid: Fileid4,
    other: Fileid4,
    kind: LockType4,
    b: u64,
    j: u128,
)
    requires
        after.has_executed(&before, Nfs4Op::Locku, s, left, ctx, ctx2, step),
        LockuArgs::decoded_len(s) is Ok,
        ctx.current_fh is Some,
        ctx.current_fh->Some_0@ == handle_of(before.fs.config.cluster_generation, fileid),
        good_range(be64_at(s.skip(24)), be64_at(s.skip(32))),
    ensures
        ctx2 == ctx,
        after == (CompoundHandler { locks: after.locks, ..before }),
        ({
            let k = key12(s.subrange(12, 24));
            let was = before.locks.lock_states@[k];
            let is = after.locks.lock_states@[k];
            let offset = be64_at(s.skip(24));
            let length = be64_at(s.skip(32));
            if !before.locks.lock_states@.contains_key(k) || !(exists|i: int|
                0 <= i < was.lock_entries@.len() && (#[trigger] was.lock_entries@[i]).fileid
                    == fileid) {
                failed(step, Nfs4Status::BadStateid) && after == before
            } else {
                &&& went_well(step)
                &&& step->result->Ok_0@.len() == 16
                &&& be32_at(step->result->Ok_0@) == was.seqid.wrapping_add(1)
                &&& step->result->Ok_0@.subrange(4, 16) == was.stateid.other@
                &&& after.locks.lock_states@.contains_key(k) && locked(is, other, kind, b)
                    <==> locked(was, other, kind, b) && !lies_in(b as int, offset, length)
                &&& j != k ==> (after.locks.lock_states@.contains_key(j)
                    <==> before.locks.lock_states@.contains_key(j))
                &&& j != k && before.locks.lock_states@.contains_key(j)
                    ==> after.locks.lock_states@[j] == before.locks.lock_states@[j]
            }
        }),
{
    broadcast use crate::bytes::skip_skip;

    reveal(CompoundHandler::has_run);
    assert(before.has_room(Nfs4Op::Locku));
    target_found(before, ctx, fileid);
    let got = choose|got: Nfs4Result<LockuArgs>|
        {
            &&& #[trigger] crate::ops::has_read::<LockuArgs>(s, left, got)
            &&& match got {
                Err(e) => after.has_refused(&before, ctx, ctx2, step, e),
                Ok(args) => {
                    &&& step is Done
                    &&& ctx2 == ctx
                    &&& after.has_given_back(&before, ctx, args, step->result)
                },
            }
        };
    let args = got->Ok_0;
    assert(args.stateid.other@ == s.subrange(12, 24)) by {
        assert(s.skip(12).take(12) =~= s.subrange(12, 24));
    }
    assert(args.offset == be64_at(s.skip(24)) && args.length == be64_at(s.skip(32)));
    let k = key12(args.stateid.other@);
    let was = before.locks.lock_states@[k];
    let is = after.locks.lock_states@[k];
    if before.locks.lock_states@.contains_key(k) && was.has_file(fileid) {
        let (now, sid) = choose|now: Duration, sid: Nfs4Result<Stateid4>|
            {
                &&& #[trigger] after.locks.has_unlocked(
                    &before.locks,
                    now,
                    args.stateid,
                    args.offset,
                    args.length,
                    sid,
                )
                &&& crate::ops::gives(step->result, sid->Ok_0.encoding())
            };
        told_stateid(sid->Ok_0);
        let end = range_end(args.offset, args.length);
        law_unlock_frees_exactly_the_range(
            was.lock_entries@,
            args.offset,
            end,
            now,
            other,
            kind,
            b,
        );
        held_bytes(was, other, kind, b);
        held_bytes(is, other, kind, b);
        let left_over = without_range(was.lock_entries@, args.offset, end, now);
        if left_over.len() > 0 {
            assert(after.locks.lock_states@.dom().contains(j)
                == before.locks.lock_states@.dom().contains(j));
            assert(is.lock_entries@ == left_over);
        } else {
            assert(!holds(left_over, other, kind, b));
        }
        assert(locked(was, other, kind, b) ==> b < u64::MAX);
    }
}

/// Giving back all of an owner takes away what that owner of that client has locked, and nothing
/// else.
pub proof fn law_released_owner_holds_nothing(
    before: CompoundHandler,
    after: CompoundHandler,
    s: Seq<u8>,
    left: Seq<u8>,
    ctx: CompoundContext,
    ctx2: CompoundContext,
    step: OpStep,
    k: u128,
)
    requires
        after.has_executed(&before, Nfs4Op::ReleaseLockowner, s, left, ctx, ctx2, step),
        ReleaseLockownerArgs::decoded_len(s) is Ok,
    ensures
        ctx2 == ctx,
        after == (CompoundHandler { locks: after.locks, ..before }),
        if before.clients.clients@.contains_key(be64_at(s)) {
            let l = before.locks.lock_states@[k];
            &&& went_well(step)
            &&& step->result->Ok_0@.len() == 0
            &&& after.locks.lock_states@.contains_key(k)
                <==> before.locks.lock_states@.contains_key(k) && !(l.owner.clientid == be64_at(s)
                && l.owner.owner@ == opaque_at(s.skip(8)))
            &&& after.locks.lock_states@.contains_key(k) ==> after.locks.lock_states@[k] == l
        } else {
            failed(step, Nfs4Status::StaleClientid) && after == before
        },
{
    broadcast use crate::bytes::skip_skip;

    reveal(CompoundHandler::has_run);
    assert(before.has_room(Nfs4Op::ReleaseLockowner));
}

} // verus!
