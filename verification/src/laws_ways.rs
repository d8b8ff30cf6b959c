//! How opening a file goes by delegations, and what is refused on the way.

use crate::args::{CreateArgs, LockHead};
use crate::bytes::{be32_at, key12};
use crate::compound::{CompoundContext, CompoundHandler, Nfs4Op};
use crate::delegation::DelegationType;
use crate::error::{Nfs4Result, Nfs4Status};
use crate::fs::handle_of;
use crate::laws_data::target_found;
use crate::laws_names::{failed, went_well};
use crate::op_open::{OpenRequest, Opened, Opening};
use crate::ops::{OpStep, OpTask};
use crate::storage::{FsAnswer, FsCall};
use crate::types::{FileStatus, FileType, Fileid4, Stateid4};
use crate::xdr::Decode;
use vstd::prelude::*;

verus! {

/// Whether a stateid is that of a delegation of the given file.
pub open spec fn is_delegation_of(h: CompoundHandler, stateid: Stateid4, fileid: Fileid4) -> bool {
    let k = key12(stateid.other@);
    &&& h.delegations.stateid_to_file@.contains_key(k)
    &&& h.delegations.delegations@.contains_key(h.delegations.stateid_to_file@[k])
    &&& h.delegations.delegations@[h.delegations.stateid_to_file@[k]].fileid == fileid
}

/// By a delegation a file is opened only in the versions with sessions and where delegations are
/// given: by a name in the current directory, which has to be proper text, or as the current file,
/// of which it has to be. Delegations from before the client was started are not known.
pub proof fn law_open_by_delegation_needs_the_delegation(
    h: CompoundHandler,
    ctx: CompoundContext,
    request: OpenRequest,
    step: OpStep,
    dir: Fileid4,
)
    requires
        h.has_begun_to_open(ctx, request, step),
        ctx.current_fh is Some,
        ctx.current_fh->Some_0@ == handle_of(h.fs.config.cluster_generation, dir),
    ensures
        request.claim is DelegPrev || request.claim is DelegPrevFh ==> failed(
            step,
            Nfs4Status::Notsupp,
        ),
        (request.claim is DelegCur || request.claim is DelegCurFh) && (ctx.minor_version == 0
            || !h.delegations.enabled) ==> failed(step, Nfs4Status::Notsupp),
        request.claim is DelegCur && ctx.minor_version > 0 && h.delegations.enabled ==> ({
            let name = request.claim->DelegCur_name@;
            if vstd::utf8::valid_utf8(name) {
                &&& step is Call
                &&& step->call is Lookup
                &&& step->call->Lookup_parent == dir
                &&& step->call->Lookup_name@ == vstd::utf8::decode_utf8(name)
                &&& step->task == OpTask::Open(Opening::Delegated { request, dir })
            } else {
                failed(step, Nfs4Status::Badchar)
            }
        }),
        request.claim is DelegCurFh && ctx.minor_version > 0 && h.delegations.enabled
            ==> if is_delegation_of(h, request.claim->DelegCurFh_0, dir) {
            &&& step is Call
            &&& step->call == (FsCall::Status { fileid: dir })
            &&& step->task == OpTask::Open(Opening::Before { request, dir, object: dir })
        } else {
            failed(step, Nfs4Status::BadStateid)
        },
{
    target_found(h, ctx, dir);
}

/// What was found under the name is opened where the delegation is of it, and refused where it is
/// not.
pub proof fn law_delegation_has_to_be_of_the_file_found(
    before: CompoundHandler,
    after: CompoundHandler,
    request: OpenRequest,
    dir: Fileid4,
    fileid: Fileid4,
    status: FileStatus,
    ctx: CompoundContext,
    ctx2: CompoundContext,
    step: OpStep,
)
    requires
        before.can_open(),
        request.claim is DelegCur,
        after.has_resumed(
            &before,
            OpTask::Open(Opening::Delegated { request, dir }),
            Ok(FsAnswer::Found { fileid, status }),
            ctx,
            ctx2,
            step,
        ),
    ensures
        after == before,
        if is_delegation_of(before, request.claim->DelegCur_stateid, fileid) {
            &&& step is Call
            &&& step->call == (FsCall::Status { fileid })
            &&& step->task == OpTask::Open(Opening::Before { request, dir, object: fileid })
        } else {
            failed(step, Nfs4Status::BadStateid)
        },
{
    reveal(CompoundHandler::has_resumed);
}

/// A file that was open before the server was started is taken back by the client and under the
/// name under which it was open: it is confirmed then, and open for what it was and for what is
/// asked for now. One that was not is refused.
pub proof fn law_open_is_taken_back_as_it_was(
    before: CompoundHandler,
    after: CompoundHandler,
    request: OpenRequest,
    dir: Fileid4,
    object: Fileid4,
    status: FileStatus,
    ctx: CompoundContext,
    ctx2: CompoundContext,
    step: OpStep,
)
    requires
        before.can_open(),
        !before.delegations.enabled,
        request.claim is Previous,
        after.has_resumed(
            &before,
            OpTask::Open(Opening::Before { request, dir, object }),
            Ok(FsAnswer::Status(status)),
            ctx,
            ctx2,
            step,
        ),
    ensures
        ({
            let noted = before.opens.noted(request.head.clientid, object, request.head.owner@);
            match noted {
                None => failed(step, Nfs4Status::ReclaimBad) && after == before,
                Some(k) => {
                    let s = before.opens.states@[k];
                    &&& step is Call
                    &&& step->call == (FsCall::Reopen {
                        fileid: object,
                        access: s.share_access | request.head.share_access,
                        add_ref: true,
                    })
                    &&& after.opens.states@[k].confirmed
                    &&& after.opens.states@[k].share_access == s.share_access
                    &&& after.opens.states@[k].clientid == s.clientid
                    &&& step->task == OpTask::Open(
                        Opening::Opened {
                            opened: Opened {
                                clientid: request.head.clientid,
                                share_access: request.head.share_access,
                                object,
                                before: status.mtime as u64,
                                fileid: object,
                                made: false,
                                stateid: s.stateid,
                            },
                        },
                    )
                },
            }
        }),
{
    reveal(CompoundHandler::has_resumed);
}

/// Whether a delegation that another client holds bars opening a file: one to write always, one to
/// read where the file is to be written.
pub open spec fn barred(h: CompoundHandler, request: OpenRequest, fileid: Fileid4) -> bool {
    let d = h.delegations.delegations@[fileid];
    &&& h.delegations.enabled
    &&& h.delegations.delegations@.contains_key(fileid)
    &&& d.clientid != request.head.clientid
    &&& d.deleg_type == DelegationType::Write || d.deleg_type == DelegationType::Read
        && request.head.share_access & 2 != 0
}

/// A file that another client holds a delegation of is not opened before the delegation was called
/// back: the client is asked to come again once that is on its way. Where no slot is free for the
/// call, that is waited for, once. A file that no delegation bars is gone on with.
pub proof fn law_delegation_of_another_is_called_back_first(
    before: CompoundHandler,
    after: CompoundHandler,
    request: OpenRequest,
    dir: Fileid4,
    object: Fileid4,
    change: u64,
    fileid: Fileid4,
    status: FileStatus,
    ctx: CompoundContext,
    ctx2: CompoundContext,
    step: OpStep,
)
    requires
        before.can_open(),
        after.has_resumed(
            &before,
            OpTask::Open(Opening::Conflict { request, dir, object, before: change }),
            Ok(FsAnswer::Found { fileid, status }),
            ctx,
            ctx2,
            step,
        ),
    ensures
        barred(before, request, fileid) ==> ({
            let d = before.delegations.delegations@[fileid];
            let bar = before.backchannel.obstacle(d.clientid);
            &&& after.opens == before.opens
            &&& d.recall_initiated ==> failed(step, Nfs4Status::Delay)
            &&& !d.recall_initiated && bar is None ==> step is Send || failed(
                step,
                Nfs4Status::Delay,
            )
            &&& !d.recall_initiated && bar is None
                ==> after.delegations.delegations@[fileid].recall_initiated
            &&& !d.recall_initiated && bar == Some(Nfs4Status::BackChanBusy) ==> step == (
            OpStep::Wait {
                later: OpTask::Open(
                    Opening::Waited {
                        request,
                        dir,
                        object,
                        before: change,
                        file: Some(fileid),
                    },
                ),
            })
            &&& !d.recall_initiated && bar is Some && bar != Some(Nfs4Status::BackChanBusy)
                ==> failed(step, bar->Some_0)
        }),
        !barred(before, request, fileid) && request.claim is Null ==> ({
            let name = crate::text::lossy_text(request.claim->Null_0@);
            &&& after == before
            &&& step is Call
            &&& request.head.opentype == 1 ==> step->call is CreateFile
                && step->call->CreateFile_parent == dir && step->call->CreateFile_name@ == name
            &&& request.head.opentype != 1 ==> step->call is Lookup && step->call->Lookup_parent
                == dir && step->call->Lookup_name@ == name
        }),
{
    reveal(CompoundHandler::has_resumed);
}

/// Where it was waited for a slot and there is none again, opening fails.
pub proof fn law_slot_is_waited_for_once(
    before: CompoundHandler,
    after: CompoundHandler,
    request: OpenRequest,
    dir: Fileid4,
    object: Fileid4,
    change: u64,
    fileid: Fileid4,
    answer: Nfs4Result<FsAnswer>,
    ctx: CompoundContext,
    ctx2: CompoundContext,
    step: OpStep,
)
    requires
        before.can_open(),
        after.has_resumed(
            &before,
            OpTask::Open(
                Opening::Waited { request, dir, object, before: change, file: Some(fileid) },
            ),
            answer,
            ctx,
            ctx2,
            step,
        ),
        barred(before, request, fileid),
        !before.delegations.delegations@[fileid].recall_initiated,
        before.backchannel.obstacle(before.delegations.delegations@[fileid].clientid) == Some(
            Nfs4Status::BackChanBusy,
        ),
    ensures
        failed(step, Nfs4Status::BackChanBusy),
        after.opens == before.opens,
{
    reveal(CompoundHandler::has_resumed);
}

/// A file that was made counts as made, and one that was found does not.
pub proof fn law_made_file_counts_as_made(
    before: CompoundHandler,
    after: CompoundHandler,
    request: OpenRequest,
    object: Fileid4,
    change: u64,
    fileid: Fileid4,
    status: FileStatus,
    ctx: CompoundContext,
    ctx2: CompoundContext,
    step: OpStep,
    made: bool,
)
    requires
        before.can_open(),
        step is Call,
        after.has_resumed(
            &before,
            OpTask::Open(
                if made {
                    Opening::Setting { request, object, before: change, fileid }
                } else {
                    Opening::Finding { request, object, before: change }
                },
            ),
            Ok(FsAnswer::Found { fileid, status }),
            ctx,
            ctx2,
            step,
        ),
    ensures
        step->task is Open,
        step->task->Open_0 is Opened,
        ({
            let o = step->task->Open_0->Opened_opened;
            &&& o.made == made
            &&& o.fileid == fileid
            &&& o.object == object
            &&& o.before == change
            &&& o.clientid == request.head.clientid
            &&& o.share_access == request.head.share_access
        }),
{
    reveal(CompoundHandler::has_resumed);
}

/// Whether a delegation may be given is asked of the kind of a file that was there and for which
/// something was said of delegations: what is no regular file gets none.
pub proof fn law_kind_decides_on_a_delegation(
    before: CompoundHandler,
    after: CompoundHandler,
    opened: Opened,
    out: Vec<u8>,
    status: FileStatus,
    ctx: CompoundContext,
    ctx2: CompoundContext,
    step: OpStep,
    later: CompoundHandler,
    out2: Vec<u8>,
    kind: FileStatus,
    ctx3: CompoundContext,
    step2: OpStep,
)
    requires
        before.can_open(),
        after.has_resumed(
            &before,
            OpTask::Open(Opening::After { opened, out }),
            Ok(FsAnswer::Status(status)),
            ctx,
            ctx2,
            step,
        ),
        after.can_open(),
        later.has_resumed(
            &after,
            OpTask::Open(Opening::Kind { opened, out: out2 }),
            Ok(FsAnswer::Status(kind)),
            ctx2,
            ctx3,
            step2,
        ),
    ensures
        step is Call <==> !opened.made && opened.share_access & 0x0f00 != 0,
        step is Call ==> step->call == (FsCall::Status { fileid: opened.fileid }),
        !(step is Call) ==> went_well(step),
        went_well(step2),
        kind.file_type != FileType::File ==> later == after && step2->result->Ok_0@.len()
            == out2@.len() + 4 && be32_at(step2->result->Ok_0@.skip(out2@.len() as int)) == 0,
{
    reveal(CompoundHandler::has_resumed);
    if kind.file_type != FileType::File {
        let r = step2->result->Ok_0@;
        let zero = crate::bytes::be32(0);
        assert(r =~= out2@ + zero);
        assert(r.skip(out2@.len() as int) =~= zero + Seq::empty());
        crate::bytes::be32_round_trip(0, Seq::empty());
    }
}

/// In the versions with sessions no open file has to be confirmed.
pub proof fn law_confirming_is_of_the_first_version(
    before: CompoundHandler,
    after: CompoundHandler,
    s: Seq<u8>,
    left: Seq<u8>,
    ctx: CompoundContext,
    ctx2: CompoundContext,
    step: OpStep,
)
    requires
        after.has_executed(&before, Nfs4Op::OpenConfirm, s, left, ctx, ctx2, step),
        ctx.minor_version > 0,
    ensures
        failed(step, Nfs4Status::Notsupp),
        after == before,
{
    reveal(CompoundHandler::has_run);
    assert(before.has_room(Nfs4Op::OpenConfirm));
}

/// A lock of an owner that has one is refused where it is to be taken back outside of the time for
/// that, and where the lock that the owner names is not known.
pub proof fn law_further_lock_names_a_lock(
    before: CompoundHandler,
    after: CompoundHandler,
    s: Seq<u8>,
    left: Seq<u8>,
    ctx: CompoundContext,
    ctx2: CompoundContext,
    step: OpStep,
)
    requires
        before.can_lock(),
        after.has_executed(&before, Nfs4Op::Lock, s, left, ctx, ctx2, step),
        s.len() >= 48,
        be32_at(s.skip(24)) != 1,
    ensures
        be32_at(s.skip(4)) != 0 && !before.grace.active ==> failed(step, Nfs4Status::NoGrace)
            && after == before,
        be32_at(s.skip(4)) == 0 && !before.locks.lock_states@.contains_key(
            key12(s.subrange(32, 44)),
        ) ==> failed(step, Nfs4Status::BadStateid) && after == before,
{
    broadcast use {crate::bytes::skip_skip, crate::bytes::skip_nothing};

    reveal(CompoundHandler::has_run);
    assert(before.has_room(Nfs4Op::Lock));
    assert(LockHead::decoded_len(s) == Ok::<nat, crate::bytes::XdrError>(28));
    assert(s.skip(28).skip(4).take(12) =~= s.subrange(32, 44));
}

/// What was remembered of a file that was written is forgotten: its bytes, and how it was.
pub proof fn law_written_file_is_not_remembered(
    before: CompoundHandler,
    after: CompoundHandler,
    fileid: Fileid4,
    count: u32,
    synced: bool,
    ctx: CompoundContext,
    ctx2: CompoundContext,
    step: OpStep,
)
    requires
        after.has_resumed(
            &before,
            OpTask::Writing { fileid },
            Ok(FsAnswer::Written { count, synced }),
            ctx,
            ctx2,
            step,
        ),
    ensures
        !after.fs.contents().contains_key(fileid),
        !after.fs.statuses().contains_key(fileid),
        forall|f: Fileid4|
            f != fileid && #[trigger] before.fs.contents().contains_key(f)
                ==> after.fs.contents().contains_key(f) && after.fs.contents()[f]
                == before.fs.contents()[f],
{
    reveal(CompoundHandler::has_resumed);
}

/// What is made can be given a size, a mode, owners and times, and is refused where anything else is
/// given.
pub proof fn law_made_file_takes_what_can_be_set(
    h: CompoundHandler,
    ctx: CompoundContext,
    args: CreateArgs,
    step: OpStep,
)
    requires
        h.has_begun_to_create(ctx, args, step),
    ensures
        ({
            let mask = args.fattr.attrmask@;
            mask.len() > 0 && (mask[0] & 0xffff_ffef != 0 || mask.len() > 1 && mask[1]
                & 0xffbe_ffcd != 0) ==> failed(step, Nfs4Status::AttrNotsupp)
        }),
        ({
            let mask = args.fattr.attrmask@;
            mask.len() > 1 && mask[0] & 0xffff_ffef == 0 && mask[1] & 0xffbe_ffcd == 0
                ==> !failed(step, Nfs4Status::AttrNotsupp)
        }),
{
    assert(!0x10u32 == 0xffff_ffefu32 && !0x0041_0032u32 == 0xffbe_ffcdu32) by (bit_vector);
}

} // verus!
