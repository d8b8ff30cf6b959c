//! What opening and closing files comes to, from the request to what the client is told.

use crate::args::{CloseArgs, OpenDowngradeArgs};
use crate::attrs::{asked_for, parsed, SetAttrs};
use crate::bytes::{be32, be32_at, be32_round_trip, be64_at, key12, skip_prefix, zeros};
use crate::compound::{CompoundContext, CompoundHandler, Nfs4Op};
use crate::delegation::{
    open_delegation_bytes, wanted, Delegation, DelegationManager, DelegationType,
};
use crate::error::{Nfs4Error, Nfs4Result, Nfs4Status};
use crate::fs::handle_of;
use crate::laws_data::{can_name, kinds_of_stateid, target_found};
use crate::laws_locks::{locked, told_stateid};
use crate::laws_names::{change_told, failed, tells_change, went_well};
use crate::lock::LockType4;
use crate::op_open::{has_read_mode, OpenClaim, OpenRequest, Opened, Opening};
use crate::open::{shares_clash, OpenManager, OpenState};
use crate::ops::{change_bytes, has_read, OpStep, OpTask};
use crate::storage::{FsAnswer, FsCall};
use crate::text::lossy_text;
use crate::time::Duration;
use crate::types::{Clientid4, Fattr4, FileStatus, FileType, Fileid4, Stateid4};
use crate::xdr::{opaque_at, XDR};
use vstd::prelude::*;

verus! {

// ---------------------------------------------------------------------------
// Making files
// ---------------------------------------------------------------------------

/// Whether the first or the second word of a mask has a bit.
pub open spec fn has_bit(mask: Seq<u32>, word: int, bit: u32) -> bool {
    mask.len() > word && mask[word] & bit != 0
}

proof fn bits_of_attributes(mask: Seq<u32>)
    ensures
        asked_for(mask, 4) <==> has_bit(mask, 0, 0x10),
        asked_for(mask, 33) <==> has_bit(mask, 1, 0x2),
        asked_for(mask, 36) <==> has_bit(mask, 1, 0x10),
        asked_for(mask, 37) <==> has_bit(mask, 1, 0x20),
        asked_for(mask, 48) <==> has_bit(mask, 1, 0x1_0000),
        asked_for(mask, 54) <==> has_bit(mask, 1, 0x40_0000),
{
    assert((1u32 << 4u32) == 0x10 && (1u32 << 1u32) == 0x2 && (1u32 << 5u32) == 0x20 && (1u32
        << 16u32) == 0x1_0000 && (1u32 << 22u32) == 0x40_0000) by (bit_vector);
}

/// The attributes that a client gives are those that its mask tells of, one behind the other: the
/// length of the file, its mode, its owner and its group, when it was read and when it was changed.
/// None is taken for another, and none is there that the mask does not tell of.
pub proof fn law_attributes_are_those_of_the_mask(fattr: Fattr4, set: SetAttrs)
    requires
        parsed(fattr, Ok(set)),
        fattr.attr_vals@.len() > 0,
    ensures
        ({
            let mask = fattr.attrmask@;
            let vals = fattr.attr_vals@;
            let mode_at: int = if has_bit(mask, 0, 0x10) {
                8
            } else {
                0
            };
            let owner_at: int = mode_at + if has_bit(mask, 1, 0x2) {
                4int
            } else {
                0
            };
            let owner_len = 4 + be32_at(vals.skip(owner_at)) + crate::bytes::pad_len(
                be32_at(vals.skip(owner_at)) as nat,
            );
            let group_at: int = owner_at + if has_bit(mask, 1, 0x10) {
                owner_len
            } else {
                0
            };
            &&& set.size == if has_bit(mask, 0, 0x10) {
                Some(be64_at(vals))
            } else {
                None
            }
            &&& set.mode == if has_bit(mask, 1, 0x2) {
                Some(be32_at(vals.skip(mode_at)))
            } else {
                None
            }
            &&& set.uid == if has_bit(mask, 1, 0x10) {
                crate::text::number_in(opaque_at(vals.skip(owner_at)))
            } else {
                None
            }
            &&& set.gid == if has_bit(mask, 1, 0x20) {
                crate::text::number_in(opaque_at(vals.skip(group_at)))
            } else {
                None
            }
            &&& !has_bit(mask, 1, 0x1_0000) ==> set.atime is None
            &&& !has_bit(mask, 1, 0x40_0000) ==> set.mtime is None
        }),
{
    broadcast use {crate::bytes::skip_skip, crate::bytes::skip_nothing};

    reveal(crate::attrs::maybe_len);
    bits_of_attributes(fattr.attrmask@);
}

/// A time that a client gives is the one that is set; where it leaves it to the server, none is.
pub proof fn law_given_times_are_set(fattr: Fattr4, set: SetAttrs)
    requires
        parsed(fattr, Ok(set)),
        fattr.attr_vals@.len() > 0,
        fattr.attrmask@.len() == 2,
        fattr.attrmask@[0] == 0,
        fattr.attrmask@[1] == 0x41_0000,
    ensures
        ({
            let vals = fattr.attr_vals@;
            let first = be32_at(vals) == 1;
            let at: int = if first {
                16
            } else {
                4
            };
            let second = be32_at(vals.skip(at)) == 1;
            &&& set.atime is Some <==> first
            &&& first ==> set.atime->Some_0.seconds == be64_at(vals.skip(4)) as i64
            &&& first ==> set.atime->Some_0.nseconds == be32_at(vals.skip(12))
            &&& set.mtime is Some <==> second
            &&& second ==> set.mtime->Some_0.seconds == be64_at(vals.skip(at + 4)) as i64
            &&& second ==> set.mtime->Some_0.nseconds == be32_at(vals.skip(at + 12))
        }),
{
    broadcast use {crate::bytes::skip_skip, crate::bytes::skip_nothing};

    reveal(crate::attrs::maybe_len);
    bits_of_attributes(fattr.attrmask@);
    assert(0x41_0000u32 & 0x1_0000u32 != 0 && 0x41_0000u32 & 0x40_0000u32 != 0 && 0x41_0000u32
        & 0x2u32 == 0 && 0x41_0000u32 & 0x10u32 == 0 && 0x41_0000u32 & 0x20u32 == 0 && 0u32
        & 0x10u32 == 0) by (bit_vector);
}

/// How a file is made is read as the client has written it: its attributes where they are given,
/// and none where the file is only to be told apart from others.
pub proof fn law_attributes_of_a_new_file_are_read(
    how: u32,
    fattr: Fattr4,
    t: Seq<u8>,
    left: Seq<u8>,
    attrs: Option<SetAttrs>,
)
    requires
        how == 0 || how == 1,
        fattr.encodable(),
        fattr.readable(),
        has_read_mode(
            be32(how) + (fattr.encoding() + t),
            left,
            Ok::<Option<SetAttrs>, Nfs4Error>(attrs),
        ),
    ensures
        attrs is Some,
        left == t,
        parsed(fattr, Ok(attrs->Some_0)),
{
    let s = be32(how) + (fattr.encoding() + t);
    be32_round_trip(how, fattr.encoding() + t);
    skip_prefix(be32(how), fattr.encoding() + t);
    skip_prefix(fattr.encoding(), t);
    fattr.round_trip(t);
    let (got, u) = choose|got: Nfs4Result<u32>, u: Seq<u8>|
        {
            &&& #[trigger] has_read::<u32>(s, u, got)
            &&& match got {
                Err(e) => false,
                Ok(mode) => if mode == 0 || mode == 1 {
                    exists|f: Nfs4Result<Fattr4>|
                        {
                            &&& #[trigger] has_read::<Fattr4>(u, left, f)
                            &&& match f {
                                Err(e) => false,
                                Ok(g) => crate::op_open::reads_attrs(
                                    g,
                                    Ok::<Option<SetAttrs>, Nfs4Error>(attrs),
                                ),
                            }
                        }
                } else {
                    false
                },
            }
        };
    assert(u == fattr.encoding() + t);
    let f = choose|f: Nfs4Result<Fattr4>|
        {
            &&& #[trigger] has_read::<Fattr4>(u, left, f)
            &&& match f {
                Err(e) => false,
                Ok(g) => crate::op_open::reads_attrs(
                    g,
                    Ok::<Option<SetAttrs>, Nfs4Error>(attrs),
                ),
            }
        };
    let g = f->Ok_0;
    assert(g.attrmask@ =~= fattr.attrmask@);
    assert(g.attr_vals@ == fattr.attr_vals@);
}

/// A new file gets each attribute that the client has given, as it was given: its mode above all,
/// so that a file that is private stays private. Only where no owner or no group is given, they are
/// those of the one who asks.
pub proof fn law_new_file_gets_the_attributes_given(
    before: CompoundHandler,
    after: CompoundHandler,
    request: OpenRequest,
    object: Fileid4,
    change: u64,
    fileid: Fileid4,
    status: FileStatus,
    ctx: CompoundContext,
    ctx2: CompoundContext,
    step: OpStep,
)
    requires
        before.can_open(),
        after.has_resumed(
            &before,
            OpTask::Open(Opening::Making { request, object, before: change }),
            Ok(FsAnswer::Found { fileid, status }),
            ctx,
            ctx2,
            step,
        ),
    ensures
        after == before,
        ctx2 == ctx,
        step is Call,
        step->task == OpTask::Open(Opening::Setting { request, object, before: change, fileid }),
        step->call is Setattr,
        step->call->Setattr_fileid == fileid,
        ({
            let set = step->call->set;
            match request.attrs {
                Some(given) => {
                    &&& set.mode == given.mode
                    &&& set.size == given.size
                    &&& set.atime == given.atime
                    &&& set.mtime == given.mtime
                    &&& set.uid == Some(
                        match given.uid {
                            Some(uid) => uid,
                            None => ctx.auth.uid,
                        },
                    )
                    &&& set.gid == Some(
                        match given.gid {
                            Some(gid) => gid,
                            None => ctx.auth.gid,
                        },
                    )
                },
                None => {
                    &&& set.mode is None
                    &&& set.size is None
                    &&& set.atime is None
                    &&& set.mtime is None
                    &&& set.uid == Some(ctx.auth.uid)
                    &&& set.gid == Some(ctx.auth.gid)
                },
            }
        }),
{
    reveal(CompoundHandler::has_resumed);
}

/// The mode that a client gives for a new file, as it stands in the request, is the mode that the
/// storage is asked to set, in whichever of the two ways the file is made.
pub proof fn law_mode_of_a_new_file_is_the_one_asked_for(
    how: u32,
    fattr: Fattr4,
    t: Seq<u8>,
    left: Seq<u8>,
    before: CompoundHandler,
    after: CompoundHandler,
    request: OpenRequest,
    object: Fileid4,
    change: u64,
    fileid: Fileid4,
    status: FileStatus,
    ctx: CompoundContext,
    ctx2: CompoundContext,
    step: OpStep,
)
    requires
        how == 0 || how == 1,
        fattr.encodable(),
        fattr.readable(),
        has_read_mode(
            be32(how) + (fattr.encoding() + t),
            left,
            Ok::<Option<SetAttrs>, Nfs4Error>(request.attrs),
        ),
        fattr.attr_vals@.len() > 0,
        has_bit(fattr.attrmask@, 1, 0x2),
        before.can_open(),
        after.has_resumed(
            &before,
            OpTask::Open(Opening::Making { request, object, before: change }),
            Ok(FsAnswer::Found { fileid, status }),
            ctx,
            ctx2,
            step,
        ),
    ensures
        step is Call,
        step->call is Setattr,
        step->call->Setattr_fileid == fileid,
        step->call->set.mode == Some(
            be32_at(
                fattr.attr_vals@.skip(
                    if has_bit(fattr.attrmask@, 0, 0x10) {
                        8
                    } else {
                        0
                    },
                ),
            ),
        ),
{
    law_attributes_of_a_new_file_are_read(how, fattr, t, left, request.attrs);
    law_attributes_are_those_of_the_mask(fattr, request.attrs->Some_0);
    law_new_file_gets_the_attributes_given(
        before,
        after,
        request,
        object,
        change,
        fileid,
        status,
        ctx,
        ctx2,
        step,
    );
}

// ---------------------------------------------------------------------------
// Opening by name
// ---------------------------------------------------------------------------

/// A file that is opened by a name is looked for under that name in the current directory. Where no
/// delegation is in the way, one who wants to make it has it made there under that name, and it is
/// looked for there otherwise.
pub proof fn law_open_by_name_stays_in_its_directory(
    before: CompoundHandler,
    ctx: CompoundContext,
    dir: Fileid4,
    name: Vec<u8>,
    request: OpenRequest,
    first: OpStep,
    second_before: CompoundHandler,
    second_after: CompoundHandler,
    was: FileStatus,
    ctx3: CompoundContext,
    ctx4: CompoundContext,
    second: OpStep,
    third_before: CompoundHandler,
    third_after: CompoundHandler,
    ctx5: CompoundContext,
    ctx6: CompoundContext,
    e: Nfs4Error,
    third: OpStep,
)
    requires
        before.has_begun_to_open(ctx, request, first),
        request.claim == OpenClaim::Null(name),
        before.claim_fault(request.claim, ctx.minor_version, request.head.clientid) is None,
        ctx.current_fh is Some,
        ctx.current_fh->Some_0@ == handle_of(before.fs.config.cluster_generation, dir),
        second_before.can_open(),
        second_after.has_resumed(
            &second_before,
            first->task,
            Ok(FsAnswer::Status(was)),
            ctx3,
            ctx4,
            second,
        ),
        third_before.can_open(),
        third_after.has_resumed(&third_before, second->task, Err(e), ctx5, ctx6, third),
    ensures
        first is Call,
        first->call == (FsCall::Status { fileid: dir }),
        second is Call,
        second->call is Lookup,
        second->call->Lookup_parent == dir,
        second->call->Lookup_name@ == lossy_text(name@),
        second_after == second_before,
        third_after == third_before,
        third is Call,
        if request.head.opentype == 1 {
            &&& third->call is CreateFile
            &&& third->call->CreateFile_parent == dir
            &&& third->call->CreateFile_name@ == lossy_text(name@)
            &&& third->task == OpTask::Open(
                Opening::Making { request, object: dir, before: was.mtime as u64 },
            )
        } else {
            &&& third->call is Lookup
            &&& third->call->Lookup_parent == dir
            &&& third->call->Lookup_name@ == lossy_text(name@)
            &&& third->task == OpTask::Open(
                Opening::Finding { request, object: dir, before: was.mtime as u64 },
            )
        },
{
    reveal(CompoundHandler::has_resumed);
    target_found(before, ctx, dir);
}

/// In the version with sessions a file is opened by name only for a client that is known and has
/// told that it has taken back all it had. Before sessions nothing of that kind is asked.
pub proof fn law_open_waits_for_reclaims(
    h: CompoundHandler,
    ctx: CompoundContext,
    request: OpenRequest,
    name: Vec<u8>,
    step: OpStep,
)
    requires
        h.has_begun_to_open(ctx, request, step),
        request.claim == OpenClaim::Null(name),
    ensures
        ctx.minor_version > 0 && !h.clients.clients@.contains_key(request.head.clientid) ==> failed(
            step,
            Nfs4Status::StaleClientid,
        ),
        ctx.minor_version > 0 && h.clients.clients@.contains_key(request.head.clientid)
            && !h.clients.clients@[request.head.clientid].reclaim_complete ==> failed(
            step,
            Nfs4Status::Grace,
        ),
        ctx.minor_version == 0 || h.clients.clients@.contains_key(request.head.clientid)
            && h.clients.clients@[request.head.clientid].reclaim_complete ==> ctx.current_fh is Some
            || failed(step, Nfs4Status::Nofilehandle),
{
}

/// A file that was open before the server was started is taken back only while clients take back
/// what they had, and only by a client that may.
pub proof fn law_open_is_taken_back_in_its_time(
    h: CompoundHandler,
    ctx: CompoundContext,
    request: OpenRequest,
    step: OpStep,
)
    requires
        h.has_begun_to_open(ctx, request, step),
        request.claim == OpenClaim::Previous,
    ensures
        !h.grace.active ==> failed(step, Nfs4Status::NoGrace),
        h.grace.active && !h.grace.change_req && !h.clients.clients@.contains_key(
            request.head.clientid,
        ) ==> failed(step, Nfs4Status::StaleClientid),
        h.clients.clients@.contains_key(request.head.clientid)
            && !h.clients.clients@[request.head.clientid].allow_reclaim ==> failed(
            step,
            Nfs4Status::NoGrace,
        ),
{
}

// ---------------------------------------------------------------------------
// Shares
// ---------------------------------------------------------------------------

/// Two opens of a file clash exactly if one may do what the other denies: of reading (1) and
/// writing (2) there is one that one of them has and the other denies.
pub proof fn law_shares_clash_in_what_one_has_and_one_denies(
    access: u32,
    deny: u32,
    access2: u32,
    deny2: u32,
)
    ensures
        shares_clash(access, deny, access2, deny2) <==> (access & deny2 & 3 != 0 || deny & access2
            & 3 != 0),
{
    assert((access & 1 != 0 && deny2 & 1 != 0 || access & 2 != 0 && deny2 & 2 != 0) <==> access
        & deny2 & 3 != 0) by (bit_vector);
    assert((deny & 1 != 0 && access2 & 1 != 0 || deny & 2 != 0 && access2 & 2 != 0) <==> deny
        & access2 & 3 != 0) by (bit_vector);
}

/// Whether another client has a file open in a way that does not go with the given one.
pub open spec fn another_denies(
    m: OpenManager,
    fileid: Fileid4,
    clientid: Clientid4,
    access: u32,
    deny: u32,
) -> bool {
    exists|k: u128|
        {
            let s = #[trigger] m.states@[k];
            &&& m.states@.contains_key(k)
            &&& s.fileid == fileid
            &&& s.clientid != clientid
            &&& access & s.share_deny & 3 != 0 || deny & s.share_access & 3 != 0
        }
}

proof fn denied_by_another(
    m: OpenManager,
    fileid: Fileid4,
    clientid: Clientid4,
    access: u32,
    deny: u32,
)
    ensures
        m.denied(fileid, access, deny, Some(clientid)) <==> another_denies(
            m,
            fileid,
            clientid,
            access,
            deny,
        ),
{
    if m.denied(fileid, access, deny, Some(clientid)) {
        let k = choose|k: u128| #[trigger] m.denies(k, fileid, access, deny, Some(clientid));
        let s = m.states@[k];
        law_shares_clash_in_what_one_has_and_one_denies(
            access,
            deny,
            s.share_access,
            s.share_deny,
        );
    }
    if another_denies(m, fileid, clientid, access, deny) {
        let k = choose|k: u128|
            {
                let s = #[trigger] m.states@[k];
                &&& m.states@.contains_key(k)
                &&& s.fileid == fileid
                &&& s.clientid != clientid
                &&& access & s.share_deny & 3 != 0 || deny & s.share_access & 3 != 0
            };
        let s = m.states@[k];
        law_shares_clash_in_what_one_has_and_one_denies(
            access,
            deny,
            s.share_access,
            s.share_deny,
        );
        assert(m.denies(k, fileid, access, deny, Some(clientid)));
    }
}

/// An owner that does not have a file open yet may open it exactly if no other client denies what
/// it wants, or has what it denies. It then has it open for what it asked for, under a stateid of
/// its own, and the storage opens the file for that; all other opens stay.
pub proof fn law_first_open_has_what_it_asked_for(
    before: CompoundHandler,
    after: CompoundHandler,
    request: OpenRequest,
    object: Fileid4,
    change: u64,
    fileid: Fileid4,
    made: bool,
    path: String,
    step: OpStep,
)
    requires
        after.has_opened_at(&before, request, object, change, fileid, made, path, step),
        before.opens.noted(request.head.clientid, fileid, request.head.owner@) is None,
    ensures
        after == (CompoundHandler { opens: after.opens, ..before }),
        if another_denies(
            before.opens,
            fileid,
            request.head.clientid,
            request.head.share_access,
            request.head.share_deny,
        ) {
            failed(step, Nfs4Status::ShareDenied) && after == before
        } else {
            &&& step is Call
            &&& step->call == (FsCall::Open { fileid, access: request.head.share_access })
            &&& step->task is Open
            &&& step->task->Open_0 is Opened
            &&& {
                let o = step->task->Open_0->Opened_opened;
                let k = key12(o.stateid.other@);
                let s = after.opens.states@[k];
                &&& o.clientid == request.head.clientid
                &&& o.share_access == request.head.share_access
                &&& o.object == object
                &&& o.before == change
                &&& o.fileid == fileid
                &&& o.made == made
                &&& o.stateid.seqid == 1
                &&& !before.opens.states@.contains_key(k)
                &&& after.opens.states@.contains_key(k)
                &&& after.opens.states@.remove(k) == before.opens.states@
                &&& s.clientid == request.head.clientid
                &&& s.owner_val@ == request.head.owner@
                &&& s.fileid == fileid
                &&& s.share_access == request.head.share_access
                &&& s.share_deny == request.head.share_deny
                &&& s.seqid == 1
                &&& !s.confirmed
                &&& after.opens.noted(request.head.clientid, fileid, request.head.owner@) == Some(k)
            }
        },
{
    denied_by_another(
        before.opens,
        fileid,
        request.head.clientid,
        request.head.share_access,
        request.head.share_deny,
    );
}

/// An owner that opens a file once more has it open for what it had and what it asks for, under the
/// same stateid, if no other client denies or has what does not go with that; the storage opens the
/// file for what is asked for and counts it once more.
pub proof fn law_further_open_adds_what_it_asked_for(
    before: CompoundHandler,
    after: CompoundHandler,
    request: OpenRequest,
    object: Fileid4,
    change: u64,
    fileid: Fileid4,
    made: bool,
    path: String,
    step: OpStep,
    k: u128,
    j: u128,
)
    requires
        after.has_opened_at(&before, request, object, change, fileid, made, path, step),
        before.opens.noted(request.head.clientid, fileid, request.head.owner@) == Some(k),
        before.opens.states@.contains_key(k),
        !another_denies(
            before.opens,
            fileid,
            request.head.clientid,
            before.opens.states@[k].share_access | request.head.share_access,
            before.opens.states@[k].share_deny | request.head.share_deny,
        ),
    ensures
        step is Call,
        step->call == (FsCall::Reopen {
            fileid,
            access: request.head.share_access,
            add_ref: true,
        }),
        step->task->Open_0->Opened_opened.stateid == before.opens.states@[k].stateid,
        after.opens.states@[k] == (OpenState {
            share_access: before.opens.states@[k].share_access | request.head.share_access,
            share_deny: before.opens.states@[k].share_deny | request.head.share_deny,
            ..before.opens.states@[k]
        }),
        j != k ==> (after.opens.states@.contains_key(j) <==> before.opens.states@.contains_key(j)),
        j != k ==> after.opens.states@[j] == before.opens.states@[j],
{
    let s = before.opens.states@[k];
    let a = request.head.share_access;
    let d = request.head.share_deny;
    denied_by_another(
        before.opens,
        fileid,
        request.head.clientid,
        s.share_access | a,
        s.share_deny | d,
    );
    denied_by_another(before.opens, fileid, request.head.clientid, a, d);
    if another_denies(before.opens, fileid, request.head.clientid, a, d) {
        let i = choose|i: u128|
            {
                let t = #[trigger] before.opens.states@[i];
                &&& before.opens.states@.contains_key(i)
                &&& t.fileid == fileid
                &&& t.clientid != request.head.clientid
                &&& a & t.share_deny & 3 != 0 || d & t.share_access & 3 != 0
            };
        let t = before.opens.states@[i];
        let x = s.share_access;
        let y = s.share_deny;
        let u = t.share_deny;
        let v = t.share_access;
        assert((a & u & 3 != 0 ==> (x | a) & u & 3 != 0) && (d & v & 3 != 0 ==> (y | d) & v & 3
            != 0)) by (bit_vector);
    }
}

// ---------------------------------------------------------------------------
// What a client is told that has opened a file
// ---------------------------------------------------------------------------

/// Once the storage has opened a file, the request goes on there and with its state, whose number
/// is the next one; how the directory is now is fetched.
pub proof fn law_open_goes_on_at_the_file(
    before: CompoundHandler,
    after: CompoundHandler,
    o: Opened,
    answer: FsAnswer,
    ctx: CompoundContext,
    ctx2: CompoundContext,
    step: OpStep,
)
    requires
        before.can_open(),
        after.has_resumed(
            &before,
            OpTask::Open(Opening::Opened { opened: o }),
            Ok(answer),
            ctx,
            ctx2,
            step,
        ),
        before.opens.states@.contains_key(key12(o.stateid.other@)),
    ensures
        ({
            let k = key12(o.stateid.other@);
            let was = before.opens.states@[k];
            &&& before.target(ctx2) == Ok::<Fileid4, Nfs4Status>(was.fileid)
            &&& ctx2.saved_fh == ctx.saved_fh
            &&& ctx2.current_stateid is Some
            &&& ctx2.current_stateid->Some_0.seqid == was.seqid.wrapping_add(1)
            &&& ctx2.current_stateid->Some_0.other == was.stateid.other
            &&& after.opens.states@[k].seqid == was.seqid.wrapping_add(1)
            &&& after.opens.states@[k].share_access == was.share_access
            &&& step is Call
            &&& step->call == (FsCall::Status { fileid: o.object })
            &&& step->task is Open
            &&& step->task->Open_0 is After
            &&& step->task->Open_0->After_out@.len() == 16
            &&& be32_at(step->task->Open_0->After_out@) == was.seqid.wrapping_add(1)
            &&& step->task->Open_0->After_out@.subrange(4, 16) == was.stateid.other@
        }),
{
    reveal(CompoundHandler::has_resumed);
    let k = key12(o.stateid.other@);
    let was = before.opens.states@[k];
    told_stateid(Stateid4 { seqid: was.seqid.wrapping_add(1), other: was.stateid.other });
    target_found(before, ctx2, was.fileid);
}

/// A client that has opened a file is told, behind the stateid, how the directory was before and is
/// now, and by two bits that locks are those of POSIX (4) and whether it has to confirm (2): it has
/// to where there are no sessions and the owner was not confirmed yet. No attribute is told to be
/// set. A file that was made comes without a delegation.
pub proof fn law_open_reply_tells_what_to_do(
    before: CompoundHandler,
    after: CompoundHandler,
    o: Opened,
    out: Vec<u8>,
    was: FileStatus,
    is: FileStatus,
    ctx: CompoundContext,
    ctx2: CompoundContext,
    step: OpStep,
)
    requires
        before.can_open(),
        o.made,
        o.before == was.mtime as u64,
        before.opens.states@.contains_key(key12(o.stateid.other@)),
        after.has_resumed(
            &before,
            OpTask::Open(Opening::After { opened: o, out }),
            Ok(FsAnswer::Status(is)),
            ctx,
            ctx2,
            step,
        ),
    ensures
        ctx2 == ctx,
        went_well(step),
        ({
            let k = key12(o.stateid.other@);
            let n = out@.len() as int;
            let reply = step->result->Ok_0@;
            let ask = ctx.minor_version == 0 && !before.opens.states@[k].confirmed;
            &&& reply.len() == n + 32
            &&& reply.take(n) == out@
            &&& tells_change(reply, n, was, is)
            &&& be32_at(reply.skip(n + 20)) == if ask {
                6u32
            } else {
                4u32
            }
            &&& be32_at(reply.skip(n + 24)) == 0
            &&& be32_at(reply.skip(n + 28)) == 0
            &&& ctx.minor_version > 0 ==> after.opens.states@[k].confirmed
            &&& ctx.minor_version == 0 ==> after.opens == before.opens
        }),
{
    reveal(CompoundHandler::has_resumed);
    let k = key12(o.stateid.other@);
    let n = out@.len() as int;
    let reply = step->result->Ok_0@;
    let flags = if ctx.minor_version == 0 && !before.opens.states@[k].confirmed {
        6u32
    } else {
        4u32
    };
    let c = change_bytes(was.mtime as u64, is.mtime as u64);
    let tail = be32(flags) + (be32(0) + be32(0));
    assert(reply =~= out@ + c + tail);
    change_told(out@, was, is, tail);
    be32_round_trip(flags, be32(0) + be32(0));
    be32_round_trip(0, be32(0));
    be32_round_trip(0, Seq::empty());
    assert(reply.skip(n + 20) =~= tail);
    assert(reply.skip(n + 24) =~= be32(0) + be32(0));
    assert(reply.skip(n + 28) =~= be32(0) + Seq::empty());
    assert(reply.take(n) =~= out@);
}

/// A client gets the delegation that it wants and no other: none where it wants none (0x800),
/// otherwise one for writing where it wants that (0x400), and otherwise one for reading where it
/// wants that (0x200) or any (0x100).
pub proof fn law_delegation_is_the_one_wanted(flags: u32)
    ensures
        flags & 0x800 != 0 ==> wanted(flags) is None,
        flags & 0x800 == 0 && flags & 0x400 != 0 ==> wanted(flags) == Some(DelegationType::Write),
        flags & 0xc00 == 0 && flags & 0x300 != 0 ==> wanted(flags) == Some(DelegationType::Read),
        flags & 0xf00 == 0 ==> wanted(flags) is None,
{
    assert((flags & 0xc00 == 0 ==> flags & 0x800 == 0 && flags & 0x400 == 0) && (flags & 0x300 != 0
        ==> flags & 0x200 != 0 || flags & 0x100 != 0) && (flags & 0xf00 == 0 ==> flags & 0x800 == 0
        && flags & 0x400 == 0 && flags & 0x200 == 0 && flags & 0x100 == 0)) by (bit_vector);
}

/// What is granted is a delegation of the file to the client; there is none of it yet, there are
/// not too many, and delegations are given at all.
pub proof fn law_granted_delegation_is_of_the_file(
    before: DelegationManager,
    after: DelegationManager,
    now: Duration,
    clientid: Clientid4,
    fileid: Fileid4,
    flags: u32,
    r: Option<Delegation>,
    other: Fileid4,
)
    requires
        after.has_granted(&before, now, clientid, fileid, flags, r),
    ensures
        r is Some <==> before.enabled && !before.delegations@.contains_key(fileid)
            && before.delegations@.len() < before.max_delegations && wanted(flags) is Some,
        r matches Some(d) ==> {
            &&& d.clientid == clientid
            &&& d.fileid == fileid
            &&& Some(d.deleg_type) == wanted(flags)
            &&& !d.recall_initiated
            &&& d.stateid.seqid == 1
            &&& after.of(fileid) == Some(d)
            &&& after.named(d.stateid) == Some(d)
        },
        other != fileid ==> after.of(other) == before.of(other),
        r is None ==> after == before,
{
}

/// A delegation is told by its kind (none is 0, for reading is 1, for writing is 2), its stateid,
/// and that it is not recalled.
pub proof fn law_delegation_is_told_by_its_kind(d: Delegation)
    ensures
        be32_at(open_delegation_bytes(None)) == 0,
        open_delegation_bytes(None).len() == 4,
        d.deleg_type == DelegationType::Read || d.deleg_type == DelegationType::Write ==> {
            let b = open_delegation_bytes(Some(d));
            &&& b.len() >= 24
            &&& be32_at(b) == if d.deleg_type == DelegationType::Read {
                1u32
            } else {
                2u32
            }
            &&& be32_at(b.skip(4)) == d.stateid.seqid
            &&& b.subrange(8, 20) == d.stateid.other@
            &&& be32_at(b.skip(20)) == 0
        },
{
    be32_round_trip(0, Seq::empty());
    assert(be32(0) + Seq::<u8>::empty() =~= be32(0));
    if d.deleg_type == DelegationType::Read || d.deleg_type == DelegationType::Write {
        let b = open_delegation_bytes(Some(d));
        let kind = if d.deleg_type == DelegationType::Read {
            1u32
        } else {
            2u32
        };
        let tail = b.skip(20);
        be32_round_trip(kind, b.skip(4));
        be32_round_trip(d.stateid.seqid, b.skip(8));
        be32_round_trip(0, b.skip(24));
        assert(b =~= be32(kind) + b.skip(4));
        assert(b.skip(4) =~= be32(d.stateid.seqid) + b.skip(8));
        assert(tail =~= be32(0) + b.skip(24));
        assert(b.subrange(8, 20) =~= d.stateid.other@);
    }
}

/// A delegation that is given back is gone, and all others stay; one that is not known is refused.
pub proof fn law_delegation_given_back_is_gone(
    before: CompoundHandler,
    after: CompoundHandler,
    stateid: Stateid4,
    r: Nfs4Result<Vec<u8>>,
    other: Fileid4,
)
    requires
        after.has_given_delegation_back(&before, stateid, r),
    ensures
        after == (CompoundHandler { delegations: after.delegations, ..before }),
        match before.delegations.named(stateid) {
            Some(d) => {
                let f = before.delegations.stateid_to_file@[key12(stateid.other@)];
                &&& r is Ok
                &&& r->Ok_0@.len() == 0
                &&& after.delegations.of(f) is None
                &&& after.delegations.named(stateid) is None
                &&& other != f ==> after.delegations.of(other) == before.delegations.of(other)
            },
            None => {
                &&& r is Err
                &&& r->Err_0.status == Nfs4Status::BadStateid
                &&& after.delegations.of(other) == before.delegations.of(other)
            },
        },
{
}

// ---------------------------------------------------------------------------
// Stateids
// ---------------------------------------------------------------------------

/// A stateid is taken if it names an open file by its latest number, or by none (0). One with a
/// number from before is old, and one with a number that was not given out yet is bad, as is one
/// that names nothing.
pub proof fn law_stateid_is_taken_by_its_number(m: OpenManager, sid: Stateid4)
    requires
        !sid.special(),
    ensures
        ({
            let k = key12(sid.other@);
            let n = m.states@[k].seqid;
            m.fault(sid) == if !m.states@.contains_key(k) {
                Some(Nfs4Status::BadStateid)
            } else if sid.seqid == 0 || sid.seqid == n {
                None
            } else if sid.seqid < n {
                Some(Nfs4Status::OldStateid)
            } else {
                Some(Nfs4Status::BadStateid)
            }
        }),
{
}

/// The stateids that name no file are those that are all zeros or, behind a zero number, all ones,
/// and the one that stands for the current state (1 and all zeros).
pub proof fn law_stateids_that_name_no_file(sid: Stateid4)
    ensures
        sid.special() <==> {
            ||| (sid.seqid == 0 || sid.seqid == 1) && (forall|i: int|
                0 <= i < 12 ==> #[trigger] sid.other@[i] == 0)
            ||| sid.seqid == 0 && (forall|i: int| 0 <= i < 12 ==> #[trigger] sid.other@[i] == 0xff)
        },
{
    let none = Seq::new(12, |i: int| 0u8);
    let all = Seq::new(12, |i: int| 0xffu8);
    if forall|i: int| 0 <= i < 12 ==> #[trigger] sid.other@[i] == 0 {
        assert(sid.other@ =~= none);
    }
    if forall|i: int| 0 <= i < 12 ==> #[trigger] sid.other@[i] == 0xff {
        assert(sid.other@ =~= all);
    }
}

// ---------------------------------------------------------------------------
// Closing
// ---------------------------------------------------------------------------

/// Closing a file takes its state away, and with it all that the client has locked of that file; the
/// storage closes the file once. What the client has locked elsewhere stays, byte for byte, and so
/// does all that other clients have.
pub proof fn law_close_lets_go_of_the_file(
    before: CompoundHandler,
    after: CompoundHandler,
    s: Seq<u8>,
    left: Seq<u8>,
    ctx: CompoundContext,
    ctx2: CompoundContext,
    step: OpStep,
    j: u128,
    other: Fileid4,
    kind: LockType4,
    b: u64,
)
    requires
        after.has_executed(&before, Nfs4Op::Close, s, left, ctx, ctx2, step),
        s.len() >= 20,
        can_name(s.skip(4)),
        before.opens.states@.contains_key(key12(s.subrange(8, 20))),
        before.opens.states@[key12(s.subrange(8, 20))].seqid == be32_at(s.skip(4)),
    ensures
        ({
            let k = key12(s.subrange(8, 20));
            let closed = before.opens.states@[k];
            let was = before.locks.lock_states@[j];
            let is = after.locks.lock_states@[j];
            &&& step is Call
            &&& step->call == (FsCall::Close { fileid: closed.fileid })
            &&& step->task is Closing
            &&& after == (CompoundHandler { opens: after.opens, locks: after.locks, ..before })
            &&& after.opens.states@ == before.opens.states@.remove(k)
            &&& before.locks.lock_states@.contains_key(j) && was.owner.clientid == closed.clientid
                ==> (after.locks.lock_states@.contains_key(j) && locked(is, other, kind, b)
                <==> locked(was, other, kind, b) && other != closed.fileid)
            &&& was.owner.clientid != closed.clientid ==> (after.locks.lock_states@.contains_key(j)
                <==> before.locks.lock_states@.contains_key(j))
            &&& was.owner.clientid != closed.clientid && before.locks.lock_states@.contains_key(j)
                ==> is == was
        }),
{
    broadcast use crate::bytes::skip_skip;

    reveal(CompoundHandler::has_run);
    assert(before.has_room(Nfs4Op::Close));
    let got = choose|got: Nfs4Result<CloseArgs>|
        {
            &&& #[trigger] has_read::<CloseArgs>(s, left, got)
            &&& match got {
                Err(e) => after.has_refused(&before, ctx, ctx2, step, e),
                Ok(args) => {
                    &&& ctx2 == ctx
                    &&& after.has_begun_to_close(&before, args.stateid, step)
                },
            }
        };
    let sid = got->Ok_0.stateid;
    assert(sid.seqid == be32_at(s.skip(4)));
    assert(sid.other@ == s.subrange(8, 20)) by {
        assert(s.skip(8).take(12) =~= s.subrange(8, 20));
    }
    assert(s.skip(4).subrange(4, 16) =~= s.subrange(8, 20));
    kinds_of_stateid(sid, s.skip(4));
    let k = key12(sid.other@);
    let closed = before.opens.states@[k];
    let was = before.locks.lock_states@[j];
    let is = after.locks.lock_states@[j];
    assert(after.locks.has_let_go(&before.locks, closed.clientid, closed.fileid, j));
    crate::lock::law_leaving_a_file_frees_it_alone(
        was.lock_entries@,
        closed.fileid,
        other,
        kind,
        b,
    );
    crate::laws_locks::held_bytes(was, other, kind, b);
    crate::laws_locks::held_bytes(is, other, kind, b);
    if before.locks.lock_states@.contains_key(j) && was.owner.clientid == closed.clientid {
        if !was.has_file(closed.fileid) {
            if locked(was, other, kind, b) {
                let i = choose|i: int|
                    0 <= i < was.lock_entries@.len() && (#[trigger] was.lock_entries@[i]).fileid
                        == other && was.lock_entries@[i].lock_type == kind
                        && crate::laws_locks::lies_in(
                        b as int,
                        was.lock_entries@[i].offset,
                        was.lock_entries@[i].length,
                    );
                assert(was.lock_entries@[i].fileid == other);
            }
        } else {
            let over = crate::lock::elsewhere(was.lock_entries@, closed.fileid);
            if over.len() == 0 {
                assert(!crate::lock::holds(over, other, kind, b));
            }
        }
    }
}

/// Who has closed a file is told a stateid that names nothing where there are sessions, and before
/// sessions the closed one with the next number.
pub proof fn law_close_reply_names_nothing_more(
    before: CompoundHandler,
    after: CompoundHandler,
    stateid: Stateid4,
    answer: FsAnswer,
    ctx: CompoundContext,
    ctx2: CompoundContext,
    step: OpStep,
)
    requires
        after.has_resumed(&before, OpTask::Closing { stateid }, Ok(answer), ctx, ctx2, step),
    ensures
        after == before,
        went_well(step),
        step->result->Ok_0@.len() == 16,
        ctx.minor_version > 0 ==> {
            &&& be32_at(step->result->Ok_0@) == 0xffff_ffff
            &&& forall|i: int| 4 <= i < 16 ==> #[trigger] step->result->Ok_0@[i] == 0
            &&& ctx2.current_stateid is None
        },
        ctx.minor_version == 0 ==> {
            &&& be32_at(step->result->Ok_0@) == if stateid.seqid == u32::MAX {
                1int
            } else {
                stateid.seqid + 1
            }
            &&& step->result->Ok_0@.subrange(4, 16) == stateid.other@
        },
{
    reveal(CompoundHandler::has_resumed);
    be32_round_trip(u32::MAX, zeros(12));
    told_stateid(crate::op_close::next_number(stateid));
}

/// Of what a file was opened for a part can be given up, and never more kept than was had. What is
/// kept is what was asked for, and the stateid has its next number.
pub proof fn law_downgrade_keeps_what_was_asked_for(
    before: CompoundHandler,
    after: CompoundHandler,
    args: OpenDowngradeArgs,
    status: FileStatus,
    ctx: CompoundContext,
    ctx2: CompoundContext,
    step: OpStep,
    j: u128,
)
    requires
        after.has_resumed(
            &before,
            OpTask::DowngradeCheck { args },
            Ok(FsAnswer::Status(status)),
            ctx,
            ctx2,
            step,
        ),
        status.file_type == FileType::File,
        before.opens.fault(args.stateid) is None,
    ensures
        ({
            let k = key12(args.stateid.other@);
            let was = before.opens.states@[k];
            if args.access & !was.share_access != 0 || args.deny & !was.share_deny != 0 {
                failed(step, Nfs4Status::Inval) && after == before
            } else {
                &&& went_well(step)
                &&& step->result->Ok_0@.len() == 16
                &&& be32_at(step->result->Ok_0@) == was.seqid.wrapping_add(1)
                &&& step->result->Ok_0@.subrange(4, 16) == was.stateid.other@
                &&& after == (CompoundHandler { opens: after.opens, ..before })
                &&& after.opens.states@[k] == (OpenState {
                    share_access: args.access,
                    share_deny: args.deny,
                    seqid: was.seqid.wrapping_add(1),
                    ..was
                })
                &&& j != k ==> (after.opens.states@.contains_key(j)
                    <==> before.opens.states@.contains_key(j))
                &&& j != k ==> after.opens.states@[j] == before.opens.states@[j]
            }
        }),
{
    reveal(CompoundHandler::has_resumed);
    let k = key12(args.stateid.other@);
    let was = before.opens.states@[k];
    let a = args.access;
    let x = was.share_access;
    let d = args.deny;
    let y = was.share_deny;
    assert((x & a == a <==> a & !x == 0) && (y & d == d <==> d & !y == 0)) by (bit_vector);
    told_stateid(Stateid4 { seqid: was.seqid.wrapping_add(1), other: was.stateid.other });
}

/// A file that was opened can be confirmed once, by the one who asks at that file; it is confirmed
/// then, and its stateid has its next number.
pub proof fn law_open_is_confirmed_once(
    before: CompoundHandler,
    after: CompoundHandler,
    ctx: CompoundContext,
    args: crate::args::OpenConfirmArgs,
    r: Nfs4Result<Vec<u8>>,
    fileid: Fileid4,
)
    requires
        after.has_confirmed(&before, ctx, args, r),
        ctx.current_fh is Some,
        ctx.current_fh->Some_0@ == handle_of(before.fs.config.cluster_generation, fileid),
        before.opens.named(args.stateid) is Some,
    ensures
        ({
            let k = key12(args.stateid.other@);
            let was = before.opens.states@[k];
            if was.fileid != fileid || was.confirmed {
                r is Err && r->Err_0.status == Nfs4Status::BadStateid && after == before
            } else {
                &&& r is Ok
                &&& be32_at(r->Ok_0@) == was.seqid.wrapping_add(1)
                &&& r->Ok_0@.subrange(4, 16) == was.stateid.other@
                &&& after.opens.states@[k].confirmed
                &&& after.opens.states@[k].seqid == was.seqid.wrapping_add(1)
                &&& after.opens.states@[k].share_access == was.share_access
                &&& after == (CompoundHandler { opens: after.opens, ..before })
            }
        }),
{
    target_found(before, ctx, fileid);
    let was = before.opens.states@[key12(args.stateid.other@)];
    told_stateid(Stateid4 { seqid: was.seqid.wrapping_add(1), other: was.stateid.other });
}

} // verus!
