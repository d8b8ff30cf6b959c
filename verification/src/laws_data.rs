//! What reading and writing files come to, from the request to what the client is told.

use crate::args::{CommitArgs, ReadArgs, WriteArgs};
use crate::bytes::{
    be32, be32_at, be32_round_trip, be64_at, be_bool, le64, le64_at, le64_round_trip, opaque,
};
use crate::compound::{CompoundContext, CompoundHandler, Nfs4Op};
use crate::error::{Nfs4Result, Nfs4Status};
use crate::fs::handle_of;
use crate::ops::{OpStep, OpTask};
use crate::pnfs::BlockRead;
use crate::storage::{FsAnswer, FsCall};
use crate::types::{FileStatus, FileType, Fileid4, Stateid4};
use crate::xdr::{opaque_at, Decode};
use vstd::prelude::*;

verus! {

// ---------------------------------------------------------------------------
// Places in a reply
// ---------------------------------------------------------------------------

/// A number is found where it was written.
pub(crate) proof fn word_at(a: Seq<u8>, x: u32, t: Seq<u8>)
    ensures
        be32_at((a + be32(x) + t).skip(a.len() as int)) == x,
        (a + be32(x) + t).skip(a.len() as int) == be32(x) + t,
        (a + be32(x) + t).skip(a.len() as int + 4) == t,
{
    assert((a + be32(x) + t).skip(a.len() as int) =~= be32(x) + t);
    assert((a + be32(x) + t).skip(a.len() as int + 4) =~= t);
    be32_round_trip(x, t);
}

/// Bytes are found where they were written, behind their number.
pub(crate) proof fn bytes_at(a: Seq<u8>, b: Seq<u8>, t: Seq<u8>)
    requires
        b.len() <= u32::MAX,
    ensures
        be32_at((a + opaque(b) + t).skip(a.len() as int)) == b.len(),
        (a + opaque(b) + t).len() >= a.len() + 4 + b.len(),
        forall|i: int|
            0 <= i < b.len() ==> #[trigger] (a + opaque(b) + t)[a.len() + 4 + i] == b[i],
{
    let all = a + opaque(b) + t;
    let behind = all.skip(a.len() as int);
    be32_round_trip(b.len() as u32, behind.skip(4));
    assert(behind =~= be32(b.len() as u32) + behind.skip(4));
}

// ---------------------------------------------------------------------------
// Writing
// ---------------------------------------------------------------------------

/// The reply to a write has three parts: how many bytes the storage has written, whether they
/// last, and when the server was started. Only what the storage says it has synced is told to last
/// (2), and what it has not is told not to (0), so that a client knows what it has to keep.
pub proof fn law_write_tells_what_lasts(
    before: CompoundHandler,
    after: CompoundHandler,
    fileid: Fileid4,
    count: u32,
    synced: bool,
    ctx: CompoundContext,
    ctx2: CompoundContext,
    step: OpStep,
)
    requires
        after.has_resumed(
            &before,
            OpTask::Writing { fileid },
            Ok(FsAnswer::Written { count, synced }),
            ctx,
            ctx2,
            step,
        ),
    ensures
        step is Done,
        step->result is Ok,
        step->result->Ok_0@.len() == 16,
        be32_at(step->result->Ok_0@) == count,
        step->result->Ok_0@[4] == 0,
        step->result->Ok_0@[5] == 0,
        step->result->Ok_0@[6] == 0,
        step->result->Ok_0@[7] == 2 <==> synced,
        step->result->Ok_0@[7] == 0 <==> !synced,
        le64_at(step->result->Ok_0@.skip(8)) == before.boot_time,
        ctx2 == ctx,
{
    reveal(CompoundHandler::has_resumed);
    let b = step->result->Ok_0@;
    let how = if synced {
        2u32
    } else {
        0u32
    };
    assert(b =~= be32(count) + (be32(how) + le64(before.boot_time)));
    be32_round_trip(count, be32(how) + le64(before.boot_time));
    le64_round_trip(before.boot_time, Seq::empty(), Seq::empty());
    assert(b.skip(8) =~= le64(before.boot_time) + Seq::empty());
}

/// What the arguments of a write are: the state, where to write, whether it has to last, and the
/// bytes.
proof fn write_arguments(args: WriteArgs, s: Seq<u8>)
    requires
        WriteArgs::decoded_len(s) is Ok,
        args.decodes_to(s),
    ensures
        s.len() >= 32,
        args.stateid.seqid == be32_at(s),
        args.stateid.other@ == s.subrange(4, 16),
        args.offset == be64_at(s.skip(16)),
        args.stable == be32_at(s.skip(24)),
        args.data@ == opaque_at(s.skip(28)),
{
    broadcast use crate::bytes::skip_skip;

    assert(s.skip(4).take(12) =~= s.subrange(4, 16));
}

/// The handle of a file leads to it.
pub(crate) proof fn target_found(h: CompoundHandler, ctx: CompoundContext, fileid: Fileid4)
    requires
        ctx.current_fh is Some,
        ctx.current_fh->Some_0@ == handle_of(h.fs.config.cluster_generation, fileid),
    ensures
        h.target(ctx) == Ok::<Fileid4, Nfs4Status>(fileid),
{
    crate::fs::law_handle_leads_to_its_file(h.fs.config.cluster_generation, 0, fileid);
}

/// A stateid that names nothing: it is all zeros.
pub open spec fn names_nothing(s: Seq<u8>) -> bool {
    forall|i: int| 0 <= i < 16 ==> #[trigger] s[i] == 0
}

/// A stateid that can be that of a file: behind its number it is neither all zeros nor all ones.
pub open spec fn can_name(s: Seq<u8>) -> bool {
    &&& exists|i: int| 4 <= i < 16 && #[trigger] s[i] != 0
    &&& exists|i: int| 4 <= i < 16 && #[trigger] s[i] != 0xff
}

pub(crate) proof fn kinds_of_stateid(sid: Stateid4, s: Seq<u8>)
    requires
        s.len() >= 16,
        sid.seqid == be32_at(s),
        sid.other@ == s.subrange(4, 16),
    ensures
        names_nothing(s) ==> sid.special(),
        can_name(s) ==> !sid.special(),
{
    if names_nothing(s) {
        assert(be32_at(s) == 0) by {
            assert(s[0] == 0 && s[1] == 0 && s[2] == 0 && s[3] == 0);
        }
        assert(sid.other@ =~= Seq::new(12, |i: int| 0u8)) by {
            assert forall|i: int| 0 <= i < 12 implies sid.other@[i] == 0 by {
                assert(s[i + 4] == 0);
            }
        }
    }
    if can_name(s) {
        let i = choose|i: int| 4 <= i < 16 && #[trigger] s[i] != 0;
        let j = choose|j: int| 4 <= j < 16 && #[trigger] s[j] != 0xff;
        assert(sid.other@[i - 4] != 0);
        assert(sid.other@[j - 4] != 0xff);
        assert(Seq::new(12, |n: int| 0u8)[i - 4] == 0);
        assert(Seq::new(12, |n: int| 0xffu8)[j - 4] == 0xff);
    }
}

/// Whether `data` is what of `given` is written at once: from its first byte on, all of it or as
/// much as the server takes.
pub open spec fn first_part(data: Seq<u8>, given: Seq<u8>, most: u32) -> bool {
    &&& data.len() <= given.len()
    &&& data.len() <= most
    &&& data.len() == given.len() || data.len() == most
    &&& forall|i: int| 0 <= i < data.len() ==> #[trigger] data[i] == given[i]
}

/// A write reaches the storage as the client has sent it: its bytes, from the first on, go to the
/// place that the request gives. Where no state is named they go to the file of the current
/// handle; otherwise to the file that was opened, if it was opened for writing, and it is synced
/// where the client wants that.
pub proof fn law_write_reaches_the_storage(
    before: CompoundHandler,
    mid: CompoundHandler,
    later: CompoundHandler,
    after: CompoundHandler,
    s: Seq<u8>,
    left: Seq<u8>,
    ctx: CompoundContext,
    ctx2: CompoundContext,
    first: OpStep,
    fileid: Fileid4,
    status: FileStatus,
    ctx3: CompoundContext,
    ctx4: CompoundContext,
    second: OpStep,
)
    requires
        WriteArgs::decoded_len(s) is Ok,
        ctx.current_fh is Some,
        ctx.current_fh->Some_0@ == handle_of(before.fs.config.cluster_generation, fileid),
        mid.has_executed(&before, Nfs4Op::Write, s, left, ctx, ctx2, first),
        after.has_resumed(
            &later,
            first->task,
            Ok(FsAnswer::Status(status)),
            ctx3,
            ctx4,
            second,
        ),
    ensures
        first is Call,
        first->call == (FsCall::Status { fileid }),
        mid == before,
        after == later,
        status.file_type != FileType::File ==> second is Done && second->result is Err
            && second->result->Err_0.status == Nfs4Status::Inval,
        status.file_type == FileType::File && names_nothing(s) ==> {
            &&& second is Call
            &&& second->call is Write
            &&& second->call->Write_fileid == fileid
            &&& second->call->Write_offset == be64_at(s.skip(16))
            &&& first_part(
                second->call->Write_data@,
                opaque_at(s.skip(28)),
                later.fs.config.max_write_size,
            )
            &&& second->task == (OpTask::Writing { fileid })
        },
        status.file_type == FileType::File && can_name(s) ==> {
            let k = crate::bytes::key12(s.subrange(4, 16));
            let open = later.opens.states@[k];
            if !later.opens.states@.contains_key(k) {
                &&& second is Done
                &&& second->result is Err
                &&& second->result->Err_0.status == Nfs4Status::BadStateid
            } else if open.share_access & 2 == 0 {
                &&& second is Done
                &&& second->result is Err
                &&& second->result->Err_0.status == Nfs4Status::Openmode
            } else {
                &&& second is Call
                &&& second->call is WriteOpen
                &&& second->call->WriteOpen_fileid == open.fileid
                &&& second->call->WriteOpen_offset == be64_at(s.skip(16))
                &&& first_part(
                    second->call->WriteOpen_data@,
                    opaque_at(s.skip(28)),
                    later.fs.config.max_write_size,
                )
                &&& second->call->sync <==> be32_at(s.skip(24)) != 0
                &&& second->task == (OpTask::Writing { fileid: open.fileid })
            }
        },
{
    reveal(CompoundHandler::has_run);
    reveal(CompoundHandler::has_resumed);
    target_found(before, ctx, fileid);
    assert(before.has_room(Nfs4Op::Write));
    let args = first->task->WriteCheck_args;
    write_arguments(args, s);
    kinds_of_stateid(args.stateid, s);
}

/// What was made to last is told by the same moment as what was written: from the start of the
/// server on, a commit answers with the last part of what each write was answered with.
pub proof fn law_commit_tells_what_writes_told(
    before: CompoundHandler,
    after: CompoundHandler,
    fileid: Fileid4,
    count: u32,
    synced: bool,
    ctx: CompoundContext,
    ctx2: CompoundContext,
    written: OpStep,
    later: CompoundHandler,
    end: CompoundHandler,
    answer: FsAnswer,
    ctx3: CompoundContext,
    ctx4: CompoundContext,
    committed: OpStep,
)
    requires
        after.has_resumed(
            &before,
            OpTask::Writing { fileid },
            Ok(FsAnswer::Written { count, synced }),
            ctx,
            ctx2,
            written,
        ),
        later.boot_time == before.boot_time,
        end.has_resumed(&later, OpTask::Committing, Ok(answer), ctx3, ctx4, committed),
    ensures
        committed is Done,
        committed->result is Ok,
        committed->result->Ok_0@ == written->result->Ok_0@.skip(8),
        committed->result->Ok_0@.len() == 8,
{
    reveal(CompoundHandler::has_resumed);
    law_write_tells_what_lasts(before, after, fileid, count, synced, ctx, ctx2, written);
    le64_round_trip(before.boot_time, Seq::empty(), Seq::empty());
    assert(written->result->Ok_0@.skip(8) =~= le64(before.boot_time));
}

/// Making changes last is asked of the storage for the file of the current handle, and only if it
/// is a file.
pub proof fn law_commit_reaches_the_storage(
    before: CompoundHandler,
    mid: CompoundHandler,
    later: CompoundHandler,
    after: CompoundHandler,
    s: Seq<u8>,
    left: Seq<u8>,
    ctx: CompoundContext,
    ctx2: CompoundContext,
    first: OpStep,
    fileid: Fileid4,
    status: FileStatus,
    ctx3: CompoundContext,
    ctx4: CompoundContext,
    second: OpStep,
)
    requires
        s.len() >= 12,
        ctx.current_fh is Some,
        ctx.current_fh->Some_0@ == handle_of(before.fs.config.cluster_generation, fileid),
        mid.has_executed(&before, Nfs4Op::Commit, s, left, ctx, ctx2, first),
        after.has_resumed(
            &later,
            first->task,
            Ok(FsAnswer::Status(status)),
            ctx3,
            ctx4,
            second,
        ),
    ensures
        first is Call,
        first->call == (FsCall::Status { fileid }),
        left == s.skip(12),
        if status.file_type == FileType::File {
            &&& second is Call
            &&& second->call == (FsCall::Commit { fileid })
            &&& second->task == OpTask::Committing
        } else {
            &&& second is Done
            &&& second->result is Err
            &&& second->result->Err_0.status == Nfs4Status::Inval
        },
{
    broadcast use crate::bytes::skip_skip;

    reveal(CompoundHandler::has_run);
    reveal(CompoundHandler::has_resumed);
    target_found(before, ctx, fileid);
    assert(before.has_room(Nfs4Op::Commit));
    assert(CommitArgs::decoded_len(s) == Ok::<nat, crate::bytes::XdrError>(12));
}

// ---------------------------------------------------------------------------
// Reading
// ---------------------------------------------------------------------------

proof fn read_arguments(args: ReadArgs, s: Seq<u8>)
    requires
        s.len() >= 28,
        args.decodes_to(s),
    ensures
        ReadArgs::decoded_len(s) == Ok::<nat, crate::bytes::XdrError>(28),
        args.stateid.seqid == be32_at(s),
        args.stateid.other@ == s.subrange(4, 16),
        args.offset == be64_at(s.skip(16)),
        args.count == be32_at(s.skip(24)),
{
    broadcast use crate::bytes::skip_skip;

    assert(s.skip(4).take(12) =~= s.subrange(4, 16));
}

/// Whether `n` bytes are what is read of a file of `size` bytes from `offset` on where `want` are
/// asked for: all of them, unless the file ends before or the server reads no more at once.
pub open spec fn as_much_as_there_is(n: u32, offset: u64, want: u32, size: int, most: u32) -> bool {
    &&& n <= want
    &&& n <= most
    &&& offset >= size ==> n == 0
    &&& offset < size ==> offset + n <= size && (n == want || n == most || offset + n == size)
}

/// Whether a client is told the given bytes of a file, and whether the file ends with them.
pub open spec fn tells_data(reply: Seq<u8>, data: Seq<u8>, eof: bool) -> bool {
    &&& reply.len() >= 8 + data.len()
    &&& be32_at(reply) == if eof {
        1u32
    } else {
        0u32
    }
    &&& be32_at(reply.skip(4)) == data.len()
    &&& forall|i: int| 0 <= i < data.len() ==> #[trigger] reply[8 + i] == data[i]
}

pub(crate) proof fn read_reply(data: Seq<u8>, eof: bool)
    requires
        data.len() <= u32::MAX,
    ensures
        tells_data(crate::op_data::read_bytes(data, eof), data, eof),
{
    let reply = crate::op_data::read_bytes(data, eof);
    bytes_at(be_bool(eof), data, Seq::empty());
    assert(reply =~= be_bool(eof) + opaque(data) + Seq::empty());
    be32_round_trip(
        if eof {
            1u32
        } else {
            0u32
        },
        opaque(data),
    );
}

/// A read asks the storage for the bytes that the client wants: from the place that the request
/// gives, as many as are wanted and are there. Where no state is named they are those of the
/// current handle's file, otherwise those of the file that was opened. What is remembered of a file
/// is told from its first byte on: as many bytes as are wanted, and the end of the file is told
/// exactly where they are all.
pub proof fn law_read_gives_the_bytes_asked_for(
    before: CompoundHandler,
    mid: CompoundHandler,
    later: CompoundHandler,
    after: CompoundHandler,
    s: Seq<u8>,
    left: Seq<u8>,
    ctx: CompoundContext,
    ctx2: CompoundContext,
    first: OpStep,
    fileid: Fileid4,
    status: FileStatus,
    ctx3: CompoundContext,
    ctx4: CompoundContext,
    second: OpStep,
)
    requires
        s.len() >= 28,
        ctx.current_fh is Some,
        ctx.current_fh->Some_0@ == handle_of(before.fs.config.cluster_generation, fileid),
        mid.has_executed(&before, Nfs4Op::Read, s, left, ctx, ctx2, first),
        after.has_resumed(
            &later,
            first->task,
            Ok(FsAnswer::Status(status)),
            ctx3,
            ctx4,
            second,
        ),
        0 <= status.len,
    ensures
        first is Call,
        first->call == (FsCall::Status { fileid }),
        left == s.skip(28),
        mid == before,
        after == later,
        ({
            let offset = be64_at(s.skip(16));
            let want = be32_at(s.skip(24));
            let k = crate::bytes::key12(s.subrange(4, 16));
            let most = later.fs.config.max_read_size;
            let kept = later.fs.contents()[fileid];
            let small = offset == 0 && status.len <= later.fs.config.max_cacheable_file_size;
            if status.file_type != FileType::File {
                &&& second is Done
                &&& second->result is Err
                &&& second->result->Err_0.status == Nfs4Status::Inval
            } else if second is Done && second->result is Ok {
                &&& offset == 0
                &&& later.fs.contents().contains_key(fileid)
                &&& kept.len() <= u32::MAX ==> tells_data(
                    second->result->Ok_0@,
                    kept.take(
                        if want <= kept.len() {
                            want as int
                        } else {
                            kept.len() as int
                        },
                    ),
                    want >= kept.len(),
                )
            } else if can_name(s) && !later.opens.states@.contains_key(k) {
                &&& second is Done
                &&& second->result->Err_0.status == Nfs4Status::BadStateid
            } else if names_nothing(s) {
                &&& second is Call
                &&& second->call is Read
                &&& second->call->Read_fileid == fileid
                &&& second->call->Read_offset == offset
                &&& as_much_as_there_is(
                    second->call->Read_count,
                    offset,
                    want,
                    status.len as int,
                    most,
                )
            } else {
                can_name(s) ==> {
                    &&& second is Call
                    &&& second->call is ReadOpen
                    &&& second->call->ReadOpen_fileid == later.opens.states@[k].fileid
                    &&& second->call->ReadOpen_offset == offset
                    &&& as_much_as_there_is(
                        second->call->ReadOpen_count,
                        offset,
                        want,
                        status.len as int,
                        most,
                    )
                }
            }
        }),
        second is Call ==> second->task == (OpTask::Reading {
            fileid,
            whole: if be64_at(s.skip(16)) == 0 && status.len
                <= later.fs.config.max_cacheable_file_size {
                Some(status.len as u64)
            } else {
                None
            },
        }),
{
    reveal(CompoundHandler::has_run);
    reveal(CompoundHandler::has_resumed);
    target_found(before, ctx, fileid);
    le64_round_trip(fileid, Seq::empty(), Seq::empty());
    le64_round_trip(before.fs.config.cluster_generation, Seq::empty(), Seq::empty());
    assert(before.has_room(Nfs4Op::Read));
    let args = first->task->ReadCheck_args;
    read_arguments(args, s);
    kinds_of_stateid(args.stateid, s);
    let kept = later.fs.contents()[fileid];
    if kept.len() <= u32::MAX {
        let n = if args.count < kept.len() {
            args.count as int
        } else {
            kept.len() as int
        };
        assert(kept.take(n).len() == n);
        assert(args.count == kept.len() ==> kept.take(args.count as int) =~= kept.take(n));
        read_reply(kept.take(n), args.count >= kept.len());
    }
}

/// What the storage gives of a file is what the client is told, and the end of the file where the
/// storage has seen it. The file is remembered exactly if the storage gave all of it, and nothing
/// else that is remembered changes.
pub proof fn law_read_tells_what_the_storage_gave(
    before: CompoundHandler,
    after: CompoundHandler,
    fileid: Fileid4,
    whole: Option<u64>,
    data: Vec<u8>,
    eof: bool,
    ctx: CompoundContext,
    ctx2: CompoundContext,
    step: OpStep,
    other: Fileid4,
)
    requires
        data@.len() <= u32::MAX,
        after.has_resumed(
            &before,
            OpTask::Reading { fileid, whole },
            Ok(FsAnswer::Data { data, eof }),
            ctx,
            ctx2,
            step,
        ),
    ensures
        step is Done,
        step->result is Ok,
        tells_data(step->result->Ok_0@, data@, eof),
        eof && whole == Some(data@.len() as u64) ==> {
            &&& after.fs.contents().contains_key(fileid)
            &&& after.fs.contents()[fileid] == data@
        },
        !(eof && whole == Some(data@.len() as u64)) ==> after == before,
        other != fileid ==> (after.fs.contents().contains_key(other)
            <==> before.fs.contents().contains_key(other)),
        other != fileid ==> after.fs.contents()[other] == before.fs.contents()[other],
{
    reveal(CompoundHandler::has_resumed);
    read_reply(data@, eof);
}

/// A file that was read whole is told the same when it is read again from its start, whether it is
/// remembered or read from the storage, as long as neither has changed.
pub proof fn law_file_reads_alike_when_remembered(
    before: CompoundHandler,
    after: CompoundHandler,
    fileid: Fileid4,
    data: Vec<u8>,
    ctx: CompoundContext,
    ctx2: CompoundContext,
    read: OpStep,
    later: CompoundHandler,
    end: CompoundHandler,
    args: ReadArgs,
    status: FileStatus,
    ctx3: CompoundContext,
    ctx4: CompoundContext,
    again: OpStep,
)
    requires
        after.has_resumed(
            &before,
            OpTask::Reading { fileid, whole: Some(data@.len() as u64) },
            Ok(FsAnswer::Data { data, eof: true }),
            ctx,
            ctx2,
            read,
        ),
        data@.len() <= args.count,
        later.fs.contents()[fileid] == after.fs.contents()[fileid],
        end.has_resumed(
            &later,
            OpTask::ReadCheck { fileid, args },
            Ok(FsAnswer::Status(status)),
            ctx3,
            ctx4,
            again,
        ),
        again is Done,
        again->result is Ok,
    ensures
        again->result->Ok_0@ == read->result->Ok_0@,
{
    reveal(CompoundHandler::has_resumed);
    assert(data@.take(data@.len() as int) =~= data@);
}

/// Of a block as much is read as is wanted and there is, from the place that is wanted; behind its
/// end there is nothing. The client is told the bytes that were read, and the end of the block
/// exactly where they reach it.
pub proof fn law_block_read_stays_in_its_block(
    block: crate::pnfs::ExtendedBlock,
    offset: u64,
    count: u32,
    read: BlockRead,
    data: Vec<u8>,
    r: Nfs4Result<Vec<u8>>,
)
    requires
        0 < block.len,
        crate::pnfs::block_plan(block, offset, count) == crate::pnfs::BlockPlan::Part(read),
        data@.len() <= read.len,
        CompoundHandler::block_read_done_result(read, Ok(data), r),
    ensures
        read.block == block,
        read.offset == offset,
        0 < read.len <= count,
        read.offset + read.len <= block.len,
        read.len == count || read.offset + read.len == block.len,
        r is Ok,
        tells_data(r->Ok_0@, data@, offset + data@.len() == block.len),
{
    read_reply(data@, read.offset + data@.len() >= crate::pnfs::block_len(block));
}

/// A block is read exactly where something of it is wanted and is there.
pub proof fn law_block_ends_where_it_is_told(
    block: crate::pnfs::ExtendedBlock,
    offset: u64,
    count: u32,
)
    ensures
        crate::pnfs::block_plan(block, offset, count) is Part <==> count > 0 && offset < block.len,
{
}

} // verus!
