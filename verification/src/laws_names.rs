//! What the operations on names come to, from the request to what the client is told.

use crate::args::CreateArgs;
use crate::attrs::{parsed, SetAttrs};
use crate::bytes::{
    be32, be32_at, be32_round_trip, be64, be64_at, be64_round_trip, be_bool, opaque, skip_prefix,
    XdrError,
};
use crate::compound::{CompoundContext, CompoundHandler, Nfs4Op};
use crate::error::{Nfs4Result, Nfs4Status};
use crate::fs::handle_of;
use crate::laws_data::target_found;
use crate::ops::{change_bytes, OpStep, OpTask};
use crate::storage::{FsAnswer, FsCall};
use crate::text::{is_name, lossy_text, text_bytes};
use crate::types::{Fattr4, FileStatus, FileType, Fileid4};
use crate::xdr::{after, opaque_round_trip, Decode, XDR, XDR_MAX_DATA_SIZE};
use vstd::prelude::*;

verus! {

/// Whether an operation that waits for a call may go on in the given way once the call has gone
/// well.
pub open spec fn goes_on(task: OpTask, answer: FsAnswer, step: OpStep) -> bool {
    exists|
        before: CompoundHandler,
        after: CompoundHandler,
        ctx: CompoundContext,
        ctx2: CompoundContext,
    | #[trigger]
        after.has_resumed(&before, task, Ok(answer), ctx, ctx2, step)
}

/// Whether an operation has failed with the given status.
pub open spec fn failed(step: OpStep, status: Nfs4Status) -> bool {
    step is Done && step->result is Err && step->result->Err_0.status == status
}

/// Whether an operation has gone well.
pub open spec fn went_well(step: OpStep) -> bool {
    step is Done && step->result is Ok
}

/// Whether a client is told, from `at` on, that a directory has changed at once, and how it was
/// before and is now.
pub open spec fn tells_change(
    reply: Seq<u8>,
    at: int,
    before: FileStatus,
    now: FileStatus,
) -> bool {
    &&& reply.len() >= at + 20
    &&& be32_at(reply.skip(at)) == 1
    &&& be64_at(reply.skip(at + 4)) == before.mtime as u64
    &&& be64_at(reply.skip(at + 12)) == now.mtime as u64
}

pub(crate) proof fn change_told(a: Seq<u8>, before: FileStatus, now: FileStatus, t: Seq<u8>)
    ensures
        tells_change(
            a + change_bytes(before.mtime as u64, now.mtime as u64) + t,
            a.len() as int,
            before,
            now,
        ),
        change_bytes(before.mtime as u64, now.mtime as u64).len() == 20,
{
    let x = before.mtime as u64;
    let y = now.mtime as u64;
    let all = a + change_bytes(x, y) + t;
    let n = a.len() as int;
    be64_round_trip(x, be64(y) + t);
    be64_round_trip(y, t);
    be32_round_trip(1, be64(x) + be64(y) + t);
    assert(all.skip(n) =~= be32(1) + (be64(x) + be64(y) + t));
    assert(all.skip(n + 4) =~= be64(x) + (be64(y) + t));
    assert(all.skip(n + 12) =~= be64(y) + t);
}

/// A name in a request is read as it was written.
pub(crate) proof fn name_read(name: Seq<u8>, t: Seq<u8>)
    requires
        name.len() <= XDR_MAX_DATA_SIZE,
    ensures
        Vec::<u8>::decoded_len(opaque(name) + t) == Ok::<nat, XdrError>(opaque(name).len()),
        crate::xdr::opaque_at(opaque(name) + t) == name,
        (opaque(name) + t).skip(opaque(name).len() as int) == t,
{
    opaque_round_trip(name, XDR_MAX_DATA_SIZE as nat, t);
    skip_prefix(opaque(name), t);
}

// ---------------------------------------------------------------------------
// Renaming
// ---------------------------------------------------------------------------

/// Renaming takes the first name of the request out of the saved directory and puts the second one
/// into the current directory: this is what the storage is asked for, and it is asked once. The
/// client is told how each directory was before and is now, the saved one first. Names that cannot
/// be names are refused, and the storage is asked for nothing.
pub proof fn law_rename_leads_from_the_saved_to_the_current_directory(
    before: CompoundHandler,
    after: CompoundHandler,
    old_name: Seq<u8>,
    new_name: Seq<u8>,
    t: Seq<u8>,
    left: Seq<u8>,
    ctx: CompoundContext,
    ctx2: CompoundContext,
    from: Fileid4,
    to: Fileid4,
    first: OpStep,
    from_was: FileStatus,
    second: OpStep,
    to_was: FileStatus,
    third: OpStep,
    answer: FsAnswer,
    fourth: OpStep,
    from_is: FileStatus,
    fifth: OpStep,
    to_is: FileStatus,
    sixth: OpStep,
)
    requires
        old_name.len() <= XDR_MAX_DATA_SIZE,
        new_name.len() <= XDR_MAX_DATA_SIZE,
        after.has_executed(
            &before,
            Nfs4Op::Rename,
            opaque(old_name) + (opaque(new_name) + t),
            left,
            ctx,
            ctx2,
            first,
        ),
        ctx.saved_fh is Some,
        ctx.saved_fh->Some_0@ == handle_of(before.fs.config.cluster_generation, from),
        ctx.current_fh is Some,
        ctx.current_fh->Some_0@ == handle_of(before.fs.config.cluster_generation, to),
    ensures
        left == t,
        after == before,
        ctx2 == ctx,
        if !is_name(text_bytes(lossy_text(old_name))) || !is_name(
            text_bytes(lossy_text(new_name)),
        ) {
            failed(first, Nfs4Status::Inval)
        } else {
            &&& first is Call
            &&& first->call == (FsCall::Status { fileid: from })
            &&& goes_on(first->task, FsAnswer::Status(from_was), second) ==> {
                &&& second is Call
                &&& second->call == (FsCall::Status { fileid: to })
                &&& goes_on(second->task, FsAnswer::Status(to_was), third) ==> {
                    &&& third is Call
                    &&& third->call is Rename
                    &&& third->call->Rename_from == from
                    &&& third->call->Rename_from_name@ == lossy_text(old_name)
                    &&& third->call->Rename_to == to
                    &&& third->call->Rename_to_name@ == lossy_text(new_name)
                    &&& goes_on(third->task, answer, fourth) ==> {
                        &&& fourth is Call
                        &&& fourth->call == (FsCall::Status { fileid: from })
                        &&& goes_on(fourth->task, FsAnswer::Status(from_is), fifth) ==> {
                            &&& fifth is Call
                            &&& fifth->call == (FsCall::Status { fileid: to })
                            &&& goes_on(fifth->task, FsAnswer::Status(to_is), sixth) ==> {
                                &&& went_well(sixth)
                                &&& sixth->result->Ok_0@.len() == 40
                                &&& tells_change(
                                    sixth->result->Ok_0@,
                                    0,
                                    from_was,
                                    from_is,
                                )
                                &&& tells_change(sixth->result->Ok_0@, 20, to_was, to_is)
                            }
                        }
                    }
                }
            }
        },
{
    reveal(CompoundHandler::has_run);
    reveal(CompoundHandler::has_resumed);
    let s = opaque(old_name) + (opaque(new_name) + t);
    name_read(old_name, opaque(new_name) + t);
    name_read(new_name, t);
    assert(s.skip((opaque(old_name).len() + opaque(new_name).len()) as int) =~= t);
    assert(before.has_room(Nfs4Op::Rename));
    target_found(before, ctx, to);
    crate::fs::law_handle_leads_to_its_file(before.fs.config.cluster_generation, 0, from);
    let a = change_bytes(from_was.mtime as u64, from_is.mtime as u64);
    let b = change_bytes(to_was.mtime as u64, to_is.mtime as u64);
    change_told(Seq::empty(), from_was, from_is, b);
    change_told(a, to_was, to_is, Seq::empty());
    assert(Seq::<u8>::empty() + a + b =~= a + b);
    assert(a + b + Seq::<u8>::empty() =~= a + b);
}

// ---------------------------------------------------------------------------
// Removing
// ---------------------------------------------------------------------------

/// Removing takes the name of the request out of the current directory, and the client is told how
/// the directory was before and is now.
pub proof fn law_remove_takes_the_name_out_of_the_current_directory(
    before: CompoundHandler,
    after: CompoundHandler,
    name: Seq<u8>,
    t: Seq<u8>,
    left: Seq<u8>,
    ctx: CompoundContext,
    ctx2: CompoundContext,
    dir: Fileid4,
    first: OpStep,
    was: FileStatus,
    second: OpStep,
    answer: FsAnswer,
    third: OpStep,
    is: FileStatus,
    fourth: OpStep,
)
    requires
        name.len() <= XDR_MAX_DATA_SIZE,
        after.has_executed(
            &before,
            Nfs4Op::Remove,
            opaque(name) + t,
            left,
            ctx,
            ctx2,
            first,
        ),
        ctx.current_fh is Some,
        ctx.current_fh->Some_0@ == handle_of(before.fs.config.cluster_generation, dir),
    ensures
        left == t,
        after == before,
        ctx2 == ctx,
        if !is_name(text_bytes(lossy_text(name))) {
            failed(first, Nfs4Status::Inval)
        } else {
            &&& first is Call
            &&& first->call == (FsCall::Status { fileid: dir })
            &&& goes_on(first->task, FsAnswer::Status(was), second) ==> {
                &&& second is Call
                &&& second->call is Remove
                &&& second->call->Remove_parent == dir
                &&& second->call->Remove_name@ == lossy_text(name)
                &&& goes_on(second->task, answer, third) ==> {
                    &&& third is Call
                    &&& third->call == (FsCall::Status { fileid: dir })
                    &&& goes_on(third->task, FsAnswer::Status(is), fourth) ==> {
                        &&& went_well(fourth)
                        &&& fourth->result->Ok_0@.len() == 20
                        &&& tells_change(fourth->result->Ok_0@, 0, was, is)
                    }
                }
            }
        },
{
    reveal(CompoundHandler::has_run);
    reveal(CompoundHandler::has_resumed);
    name_read(name, t);
    assert(before.has_room(Nfs4Op::Remove));
    target_found(before, ctx, dir);
    let a = change_bytes(was.mtime as u64, is.mtime as u64);
    change_told(Seq::empty(), was, is, Seq::empty());
    assert(Seq::<u8>::empty() + a + Seq::<u8>::empty() =~= a);
}

// ---------------------------------------------------------------------------
// Linking
// ---------------------------------------------------------------------------

/// Linking gives the saved file the name of the request in the current directory.
pub proof fn law_link_names_the_saved_file_in_the_current_directory(
    before: CompoundHandler,
    after: CompoundHandler,
    name: Seq<u8>,
    t: Seq<u8>,
    left: Seq<u8>,
    ctx: CompoundContext,
    ctx2: CompoundContext,
    file: Fileid4,
    dir: Fileid4,
    step: OpStep,
)
    requires
        name.len() <= XDR_MAX_DATA_SIZE,
        after.has_executed(&before, Nfs4Op::Link, opaque(name) + t, left, ctx, ctx2, step),
        ctx.saved_fh is Some,
        ctx.saved_fh->Some_0@ == handle_of(before.fs.config.cluster_generation, file),
        ctx.current_fh is Some,
        ctx.current_fh->Some_0@ == handle_of(before.fs.config.cluster_generation, dir),
    ensures
        left == t,
        after == before,
        ctx2 == ctx,
        step is Call,
        step->task == OpTask::Link,
        step->call is Link,
        step->call->Link_fileid == file,
        step->call->Link_parent == dir,
        step->call->Link_name@ == lossy_text(name),
{
    reveal(CompoundHandler::has_run);
    name_read(name, t);
    assert(before.has_room(Nfs4Op::Link));
    target_found(before, ctx, dir);
    crate::fs::law_handle_leads_to_its_file(before.fs.config.cluster_generation, 0, file);
}

// ---------------------------------------------------------------------------
// Looking names up
// ---------------------------------------------------------------------------

/// Looking a name up leads from the current directory to what has the name there, and the request
/// goes on there; the handle that was saved stays.
pub proof fn law_lookup_leads_to_what_has_the_name(
    before: CompoundHandler,
    after: CompoundHandler,
    name: Seq<u8>,
    t: Seq<u8>,
    left: Seq<u8>,
    ctx: CompoundContext,
    ctx2: CompoundContext,
    dir: Fileid4,
    first: OpStep,
    later: CompoundHandler,
    end: CompoundHandler,
    fileid: Fileid4,
    status: FileStatus,
    ctx3: CompoundContext,
    ctx4: CompoundContext,
    second: OpStep,
)
    requires
        name.len() <= XDR_MAX_DATA_SIZE,
        after.has_executed(&before, Nfs4Op::Lookup, opaque(name) + t, left, ctx, ctx2, first),
        ctx.current_fh is Some,
        ctx.current_fh->Some_0@ == handle_of(before.fs.config.cluster_generation, dir),
        end.has_resumed(
            &later,
            OpTask::Lookup,
            Ok(FsAnswer::Found { fileid, status }),
            ctx3,
            ctx4,
            second,
        ),
    ensures
        left == t,
        after == before,
        ctx2 == ctx,
        if !is_name(text_bytes(lossy_text(name))) {
            failed(first, Nfs4Status::Inval)
        } else {
            &&& first is Call
            &&& first->task == OpTask::Lookup
            &&& first->call is Lookup
            &&& first->call->Lookup_parent == dir
            &&& first->call->Lookup_name@ == lossy_text(name)
        },
        went_well(second),
        second->result->Ok_0@.len() == 0,
        end == later,
        later.target(ctx4) == Ok::<Fileid4, Nfs4Status>(fileid),
        ctx4 == (CompoundContext { current_fh: ctx4.current_fh, ..ctx3 }),
{
    reveal(CompoundHandler::has_run);
    reveal(CompoundHandler::has_resumed);
    name_read(name, t);
    assert(before.has_room(Nfs4Op::Lookup));
    target_found(before, ctx, dir);
    target_found(later, ctx4, fileid);
}

/// Looking up where a directory is looks the name ".." up in it.
pub proof fn law_lookupp_leads_upwards(
    before: CompoundHandler,
    after: CompoundHandler,
    s: Seq<u8>,
    left: Seq<u8>,
    ctx: CompoundContext,
    ctx2: CompoundContext,
    dir: Fileid4,
    step: OpStep,
)
    requires
        after.has_executed(&before, Nfs4Op::Lookupp, s, left, ctx, ctx2, step),
        ctx.current_fh is Some,
        ctx.current_fh->Some_0@ == handle_of(before.fs.config.cluster_generation, dir),
    ensures
        left == s,
        after == before,
        ctx2 == ctx,
        step is Call,
        step->task == OpTask::Lookup,
        step->call is Lookup,
        step->call->Lookup_parent == dir,
        step->call->Lookup_name@ == seq!['.', '.'],
{
    reveal(CompoundHandler::has_run);
    assert(before.has_room(Nfs4Op::Lookupp));
    target_found(before, ctx, dir);
}

/// Where a symbolic link leads is asked for the current handle's file, and the client is told what
/// the storage says, byte for byte.
pub proof fn law_readlink_tells_where_the_link_leads(
    before: CompoundHandler,
    after: CompoundHandler,
    s: Seq<u8>,
    left: Seq<u8>,
    ctx: CompoundContext,
    ctx2: CompoundContext,
    fileid: Fileid4,
    first: OpStep,
    target: String,
    second: OpStep,
)
    requires
        after.has_executed(&before, Nfs4Op::Readlink, s, left, ctx, ctx2, first),
        ctx.current_fh is Some,
        ctx.current_fh->Some_0@ == handle_of(before.fs.config.cluster_generation, fileid),
        text_bytes(target@).len() < u32::MAX,
    ensures
        first is Call,
        first->call == (FsCall::Readlink { fileid }),
        goes_on(first->task, FsAnswer::Target(target), second) ==> {
            let told = second->result->Ok_0@;
            &&& went_well(second)
            &&& be32_at(told) == text_bytes(target@).len()
            &&& told.len() >= 4 + text_bytes(target@).len()
            &&& forall|i: int|
                0 <= i < text_bytes(target@).len() ==> #[trigger] told[4 + i] == text_bytes(
                    target@,
                )[i]
        },
{
    reveal(CompoundHandler::has_run);
    reveal(CompoundHandler::has_resumed);
    assert(before.has_room(Nfs4Op::Readlink));
    target_found(before, ctx, fileid);
    let b = text_bytes(target@);
    crate::laws_data::bytes_at(Seq::empty(), b, Seq::empty());
    assert(Seq::<u8>::empty() + opaque(b) + Seq::<u8>::empty() =~= opaque(b));
    assert(opaque(b).skip(0) =~= opaque(b));
}

/// Of the kinds of access that a client asks about it is told those that there can be for the kind
/// of file, and that it has just those that it asked about: a directory can be read, searched,
/// changed and added to, and names can be taken out of it; a file can be read, changed, added to
/// and run; all else can be read.
pub proof fn law_access_is_what_was_asked_for_and_can_be(
    access: u32,
    status: FileStatus,
    step: OpStep,
    bit: u32,
)
    requires
        goes_on(OpTask::Access { access }, FsAnswer::Status(status), step),
        bit < 6,
    ensures
        went_well(step),
        step->result->Ok_0@.len() == 8,
        ({
            let can = be32_at(step->result->Ok_0@);
            let has = be32_at(step->result->Ok_0@.skip(4));
            &&& (can >> bit) & 1 == 1 <==> match status.file_type {
                FileType::Dir => bit <= 4,
                FileType::File => bit == 0 || bit == 2 || bit == 3 || bit == 5,
                _ => bit == 0,
            }
            &&& (has >> bit) & 1 == 1 <==> (can >> bit) & 1 == 1 && (access >> bit) & 1 == 1
            &&& can < 64
        }),
{
    reveal(CompoundHandler::has_resumed);
    let can = match status.file_type {
        FileType::Dir => 0x1fu32,
        FileType::File => 0x2du32,
        _ => 0x01u32,
    };
    let has = access & can;
    let reply = step->result->Ok_0@;
    assert(reply =~= be32(can) + be32(has));
    be32_round_trip(can, be32(has));
    be32_round_trip(has, Seq::empty());
    assert(reply.skip(4) =~= be32(has) + Seq::empty());
    assert(bit < 6 ==> {
        &&& ((0x1fu32 >> bit) & 1 == 1 <==> bit <= 4)
        &&& ((0x2du32 >> bit) & 1 == 1 <==> bit == 0 || bit == 2 || bit == 3 || bit == 5)
        &&& ((0x01u32 >> bit) & 1 == 1 <==> bit == 0)
        &&& (((access & can) >> bit) & 1 == 1 <==> (can >> bit) & 1 == 1 && (access >> bit) & 1
            == 1)
    }) by (bit_vector);
}

// ---------------------------------------------------------------------------
// Making things other than files
// ---------------------------------------------------------------------------

/// Whether attributes are asked for that something new cannot have: of the first word it can have
/// its length, of the second one its mode, owner, group and times.
pub open spec fn cannot_be_had(mask: Seq<u32>) -> bool {
    mask.len() > 0 && (mask[0] & !0x10u32 != 0 || mask.len() > 1 && mask[1] & !0x0041_0032u32 != 0)
}

/// Something that is not a file is made in the current directory under the name of the request: a
/// directory (2), or a link (5) that leads where the request says. Devices, sockets and pipes (3, 4,
/// 6 and 7) are not made, nor are things of a kind that is not known. It gets the attributes that
/// were given; where no mode was, its owner alone may use it.
pub proof fn law_create_makes_what_was_asked_for(
    before: CompoundHandler,
    after: CompoundHandler,
    s: Seq<u8>,
    left: Seq<u8>,
    ctx: CompoundContext,
    ctx2: CompoundContext,
    args: CreateArgs,
    dir: Fileid4,
    first: OpStep,
    was: FileStatus,
    second: OpStep,
    fileid: Fileid4,
    status: FileStatus,
    third: OpStep,
)
    requires
        CreateArgs::decoded_len(s) is Ok,
        args.decodes_to(s),
        after.has_executed(&before, Nfs4Op::Create, s, left, ctx, ctx2, first),
        ctx.current_fh is Some,
        ctx.current_fh->Some_0@ == handle_of(before.fs.config.cluster_generation, dir),
    ensures
        after == before,
        ctx2 == ctx,
        if cannot_be_had(args.fattr.attrmask@) {
            failed(first, Nfs4Status::AttrNotsupp)
        } else {
            exists|p: Result<SetAttrs, XdrError>|
                {
                    &&& #[trigger] parsed(args.fattr, p)
                    &&& p is Err ==> failed(first, Nfs4Status::Io)
                    &&& p is Ok ==> {
                        &&& first is Call
                        &&& first->call == (FsCall::Status { fileid: dir })
                        &&& goes_on(first->task, FsAnswer::Status(was), second) ==> {
                            let kind = args.kind.obj_type;
                            let name = lossy_text(args.objname@);
                            if was.file_type != FileType::Dir {
                                failed(second, Nfs4Status::Notdir)
                            } else if !is_name(text_bytes(name)) {
                                failed(second, Nfs4Status::Inval)
                            } else if kind == 2 {
                                &&& second is Call
                                &&& second->call is Mkdir
                                &&& second->call->Mkdir_parent == dir
                                &&& second->call->Mkdir_name@ == name
                            } else if kind == 5 {
                                let link = lossy_text(args.kind.link->Some_0@);
                                if text_bytes(link).len() == 0 {
                                    failed(second, Nfs4Status::Inval)
                                } else {
                                    &&& second is Call
                                    &&& second->call is Symlink
                                    &&& second->call->Symlink_parent == dir
                                    &&& second->call->Symlink_name@ == name
                                    &&& second->call->target@ == link
                                }
                            } else if kind == 3 || kind == 4 || kind == 6 || kind == 7 {
                                failed(second, Nfs4Status::Notsupp)
                            } else {
                                failed(second, Nfs4Status::Badtype)
                            }
                        }
                        &&& goes_on(first->task, FsAnswer::Status(was), second) && second is Call
                            && goes_on(
                            second->task,
                            FsAnswer::Found { fileid, status },
                            third,
                        ) ==> {
                            let given = p->Ok_0;
                            let set = third->call->set;
                            &&& third is Call
                            &&& third->call is Setattr
                            &&& third->call->Setattr_fileid == fileid
                            &&& set.mode == Some(
                                match given.mode {
                                    Some(mode) => mode,
                                    None => if args.kind.obj_type == 2 {
                                        0o700u32
                                    } else {
                                        0o600u32
                                    },
                                },
                            )
                            &&& set.uid == given.uid
                            &&& set.gid == given.gid
                            &&& set.size == given.size
                            &&& set.atime == given.atime
                            &&& set.mtime == given.mtime
                        }
                    }
                }
        },
{
    broadcast use {crate::bytes::skip_skip, crate::bytes::skip_nothing};

    let mine = create_read(before, after, s, left, ctx, ctx2, args, first);
    target_found(before, ctx, dir);
    if !cannot_be_had(args.fattr.attrmask@) {
        let p = choose|p: Result<SetAttrs, XdrError>|
            {
                &&& #[trigger] parsed(mine.fattr, p)
                &&& match p {
                    Err(_) => crate::ops::gives_up(first, Nfs4Status::Io),
                    Ok(set) => match before.target(ctx) {
                        Err(st) => crate::ops::gives_up(first, st),
                        Ok(parent) => {
                            &&& first is Call
                            &&& first->task is CreateCheck
                            &&& first->task->CreateCheck_parent == parent
                            &&& first->task->making.is_for(mine, set)
                            &&& first->call == (FsCall::Status { fileid: parent })
                        },
                    },
                }
            };
        assert(parsed(args.fattr, p));
        if p is Ok {
            create_goes_on(mine, p->Ok_0, dir, first, was, second, fileid, status, third);
        }
    }
}

proof fn create_read(
    before: CompoundHandler,
    after: CompoundHandler,
    s: Seq<u8>,
    left: Seq<u8>,
    ctx: CompoundContext,
    ctx2: CompoundContext,
    args: CreateArgs,
    first: OpStep,
) -> (mine: CreateArgs)
    requires
        CreateArgs::decoded_len(s) is Ok,
        args.decodes_to(s),
        after.has_executed(&before, Nfs4Op::Create, s, left, ctx, ctx2, first),
    ensures
        after == before,
        ctx2 == ctx,
        before.has_begun_to_create(ctx, mine, first),
        mine.kind.obj_type == args.kind.obj_type,
        mine.kind.link is Some <==> args.kind.link is Some,
        mine.kind.link is Some ==> mine.kind.link->Some_0@ == args.kind.link->Some_0@,
        mine.objname@ == args.objname@,
        mine.fattr.attrmask@ == args.fattr.attrmask@,
        mine.fattr.attr_vals@ == args.fattr.attr_vals@,
        mine.kind.link is Some <==> mine.kind.obj_type == 5,
{
    reveal(CompoundHandler::has_run);
    assert(before.has_room(Nfs4Op::Create));
    let got = choose|got: Nfs4Result<CreateArgs>|
        {
            &&& #[trigger] crate::ops::has_read::<CreateArgs>(s, left, got)
            &&& match got {
                Err(e) => after.has_refused(&before, ctx, ctx2, first, e),
                Ok(args) => {
                    &&& after == before
                    &&& ctx2 == ctx
                    &&& before.has_begun_to_create(ctx, args, first)
                },
            }
        };
    let mine = got->Ok_0;
    assert(mine.fattr.attrmask@ =~= args.fattr.attrmask@);
    mine
}

proof fn create_goes_on(
    args: CreateArgs,
    given: SetAttrs,
    dir: Fileid4,
    first: OpStep,
    was: FileStatus,
    second: OpStep,
    fileid: Fileid4,
    status: FileStatus,
    third: OpStep,
)
    requires
        first is Call,
        first->task is CreateCheck,
        first->task->CreateCheck_parent == dir,
        first->task->making.is_for(args, given),
        args.kind.link is Some <==> args.kind.obj_type == 5,
    ensures
        goes_on(first->task, FsAnswer::Status(was), second) ==> {
            let kind = args.kind.obj_type;
            let name = lossy_text(args.objname@);
            if was.file_type != FileType::Dir {
                failed(second, Nfs4Status::Notdir)
            } else if !is_name(text_bytes(name)) {
                failed(second, Nfs4Status::Inval)
            } else if kind == 2 {
                &&& second is Call
                &&& second->call is Mkdir
                &&& second->call->Mkdir_parent == dir
                &&& second->call->Mkdir_name@ == name
            } else if kind == 5 {
                let link = lossy_text(args.kind.link->Some_0@);
                if text_bytes(link).len() == 0 {
                    failed(second, Nfs4Status::Inval)
                } else {
                    &&& second is Call
                    &&& second->call is Symlink
                    &&& second->call->Symlink_parent == dir
                    &&& second->call->Symlink_name@ == name
                    &&& second->call->target@ == link
                }
            } else if kind == 3 || kind == 4 || kind == 6 || kind == 7 {
                failed(second, Nfs4Status::Notsupp)
            } else {
                failed(second, Nfs4Status::Badtype)
            }
        },
        goes_on(first->task, FsAnswer::Status(was), second) && second is Call && goes_on(
            second->task,
            FsAnswer::Found { fileid, status },
            third,
        ) ==> {
            let set = third->call->set;
            &&& third is Call
            &&& third->call is Setattr
            &&& third->call->Setattr_fileid == fileid
            &&& set.mode == Some(
                match given.mode {
                    Some(mode) => mode,
                    None => if args.kind.obj_type == 2 {
                        0o700u32
                    } else {
                        0o600u32
                    },
                },
            )
            &&& set.uid == given.uid
            &&& set.gid == given.gid
            &&& set.size == given.size
            &&& set.atime == given.atime
            &&& set.mtime == given.mtime
        },
{
    reveal(CompoundHandler::has_resumed);
}

/// Once what was made has its attributes, the request goes on there, and the client is told how the
/// directory was before and is now.
pub proof fn law_create_goes_on_at_what_was_made(
    before: CompoundHandler,
    after: CompoundHandler,
    dir: Fileid4,
    fileid: Fileid4,
    mask: Vec<u32>,
    was: FileStatus,
    answer: FsAnswer,
    ctx: CompoundContext,
    ctx2: CompoundContext,
    step: OpStep,
    is: FileStatus,
    last: OpStep,
)
    requires
        after.has_resumed(
            &before,
            OpTask::CreateSet { parent: dir, fileid, mask, before: was.mtime as u64 },
            Ok(answer),
            ctx,
            ctx2,
            step,
        ),
        goes_on(step->task, FsAnswer::Status(is), last),
        mask@.len() < u32::MAX,
    ensures
        after == before,
        before.target(ctx2) == Ok::<Fileid4, Nfs4Status>(fileid),
        ctx2.saved_fh == ctx.saved_fh,
        step is Call,
        step->call == (FsCall::Status { fileid: dir }),
        went_well(last),
        tells_change(last->result->Ok_0@, 0, was, is),
        be32_at(last->result->Ok_0@.skip(20)) == mask@.len(),
{
    reveal(CompoundHandler::has_resumed);
    target_found(before, ctx2, fileid);
    let c = change_bytes(was.mtime as u64, is.mtime as u64);
    let m = mask.encoding();
    change_told(Seq::empty(), was, is, m);
    assert(Seq::<u8>::empty() + c + m =~= c + m);
    be32_round_trip(mask@.len() as u32, crate::xdr::be32s(mask@));
    assert((c + m).skip(20) =~= m);
}

// ---------------------------------------------------------------------------
// Listing
// ---------------------------------------------------------------------------

/// A directory is listed from where the client wants to go on; 1 and 2 are no such places. As many
/// entries are asked for as the client has room for, at least 16, and 256 where it does not say.
pub proof fn law_listing_goes_on_where_asked(
    h: CompoundHandler,
    after: CompoundHandler,
    s: Seq<u8>,
    left: Seq<u8>,
    ctx: CompoundContext,
    ctx2: CompoundContext,
    step: OpStep,
    dir: Fileid4,
)
    requires
        crate::args::ReaddirArgs::decoded_len(s) is Ok,
        after.has_executed(&h, Nfs4Op::Readdir, s, left, ctx, ctx2, step),
        ctx.current_fh is Some,
        ctx.current_fh->Some_0@ == handle_of(h.fs.config.cluster_generation, dir),
    ensures
        after == h,
        ctx2 == ctx,
        ({
            let cookie = be64_at(s);
            let room = be32_at(s.skip(16));
            if cookie == 1 || cookie == 2 {
                failed(step, Nfs4Status::BadCookie)
            } else {
                &&& step is Call
                &&& step->call is Readdir
                &&& step->call->dir == dir
                &&& step->call->cookie == cookie
                &&& room == 0 ==> step->call->max_entries == 256
                &&& 0 < room < 1088 ==> step->call->max_entries == 16
                &&& room >= 1088 ==> step->call->max_entries == room / 64
                &&& step->task is Readdir
                &&& step->task->maxcount == be32_at(s.skip(20))
            }
        }),
{
    broadcast use {crate::bytes::skip_skip, crate::bytes::skip_nothing};

    reveal(CompoundHandler::has_run);
    assert(h.has_room(Nfs4Op::Readdir));
    target_found(h, ctx, dir);
}

/// Whether a part of a reply tells of an entry: that there is one, its number, and its name.
pub open spec fn tells_entry(reply: Seq<u8>, at: int, fileid: Fileid4, name: Seq<u8>) -> bool {
    &&& reply.len() >= at + 16 + name.len()
    &&& be32_at(reply.skip(at)) == 1
    &&& be64_at(reply.skip(at + 4)) == fileid
    &&& be32_at(reply.skip(at + 12)) == name.len()
    &&& forall|i: int| 0 <= i < name.len() ==> #[trigger] reply[at + 16 + i] == name[i]
}

/// Where the entries of a listing stand in a reply.
pub open spec fn places(
    at: Seq<int>,
    reply: Seq<u8>,
    entries: Seq<crate::storage::DirEntry>,
) -> bool {
    &&& at.len() <= entries.len()
    &&& at.len() > 0 ==> at[0] == 8
    &&& forall|i: int, j: int| 0 <= i < j < at.len() ==> at[i] + 16 < at[j]
    &&& forall|i: int|
        0 <= i < at.len() ==> tells_entry(
            reply,
            #[trigger] at[i],
            entries[i].fileid,
            text_bytes(entries[i].name@),
        )
}

proof fn entry_told(a: Seq<u8>, e: crate::storage::DirEntry, f: Fattr4, t: Seq<u8>)
    requires
        text_bytes(e.name@).len() < u32::MAX,
    ensures
        tells_entry(
            a + (crate::op_dir::entry_bytes(e, f) + t),
            a.len() as int,
            e.fileid,
            text_bytes(e.name@),
        ),
        crate::op_dir::entry_bytes(e, f).len() > 16,
{
    reveal(crate::op_dir::entry_name);
    reveal(crate::op_dir::entry_bytes);
    let name = text_bytes(e.name@);
    let this = crate::op_dir::entry_bytes(e, f);
    let all = a + (this + t);
    let p = a.len() as int;
    let tail = f.encoding() + t;
    assert(this =~= be32(1) + be64(e.fileid) + opaque(name) + f.encoding());
    be32_round_trip(1, be64(e.fileid) + (opaque(name) + tail));
    be64_round_trip(e.fileid, opaque(name) + tail);
    crate::laws_data::bytes_at(Seq::empty(), name, tail);
    assert(Seq::<u8>::empty() + opaque(name) + tail =~= opaque(name) + tail);
    assert(all.skip(p) =~= be32(1) + (be64(e.fileid) + (opaque(name) + tail)));
    assert(all.skip(p + 4) =~= be64(e.fileid) + (opaque(name) + tail));
    assert(all.skip(p + 12) =~= opaque(name) + tail);
    assert((opaque(name) + tail).skip(0) =~= opaque(name) + tail);
    assert forall|i: int| 0 <= i < name.len() implies #[trigger] all[p + 16 + i] == name[i] by {
        assert(all.skip(p + 12)[4 + i] == name[i]);
    }
    assert(f.encoding().len() >= 4);
}

proof fn listing_told(
    entries: Seq<crate::storage::DirEntry>,
    fattrs: Seq<Fattr4>,
    n: int,
    t: Seq<u8>,
) -> (at: Seq<int>)
    requires
        0 <= n <= entries.len(),
        n <= fattrs.len(),
        forall|i: int| 0 <= i < n ==> text_bytes((#[trigger] entries[i]).name@).len() < u32::MAX,
    ensures
        at.len() == n,
        places(at, crate::op_dir::listing(entries, fattrs, n) + t, entries),
        crate::op_dir::listing(entries, fattrs, n).len() >= 8,
        forall|i: int| 0 <= i < 8 ==> #[trigger] crate::op_dir::listing(entries, fattrs, n)[i] == 0,
        forall|i: int|
            0 <= i < n ==> #[trigger] at[i] == crate::op_dir::listing(entries, fattrs, i).len(),
        forall|i: int|
            0 <= i < n ==> #[trigger] at[i] + 16 < crate::op_dir::listing(entries, fattrs, n).len(),
    decreases n,
{
    reveal_with_fuel(crate::op_dir::listing, 2);
    if n == 0 {
        Seq::empty()
    } else {
        let e = entries[n - 1];
        let f = fattrs[n - 1];
        let name = text_bytes(e.name@);
        let before = crate::op_dir::listing(entries, fattrs, n - 1);
        let this = crate::op_dir::entry_bytes(e, f);
        let at = listing_told(entries, fattrs, n - 1, this + t);
        let all = crate::op_dir::listing(entries, fattrs, n) + t;
        let p = before.len() as int;
        assert(crate::op_dir::listing(entries, fattrs, n) == before + this);
        assert(all =~= before + (this + t));
        entry_told(before, e, f, t);
        let more = at.push(p);
        assert forall|i: int| 0 <= i < more.len() implies tells_entry(
            all,
            #[trigger] more[i],
            entries[i].fileid,
            text_bytes(entries[i].name@),
        ) by {
            if i < n - 1 {
                assert(more[i] == at[i]);
            }
        }
        assert forall|i: int, j: int| 0 <= i < j < more.len() implies more[i] + 16 < more[j] by {
            assert(more[i] == at[i]);
            if j < n - 1 {
                assert(more[j] == at[j]);
            }
        }
        assert forall|i: int| 0 <= i < n implies #[trigger] more[i] + 16
            < crate::op_dir::listing(entries, fattrs, n).len() by {
            if i < n - 1 {
                assert(more[i] == at[i]);
            }
        }
        more
    }
}

/// A listing tells of the entries one behind the other, each with its number and its name, from the
/// first one on. It tells of as many as there is room for, by a name and 116 bytes more for each,
/// unless one cannot be sent at all, and says that the directory ends there only where the storage
/// has given all that is left and all of it is told.
pub proof fn law_listing_tells_the_entries(
    maxcount: u32,
    request: Vec<u32>,
    entries: Vec<crate::storage::DirEntry>,
    end: bool,
    step: OpStep,
)
    requires
        goes_on(
            OpTask::Readdir { maxcount, request },
            FsAnswer::Entries { entries, end },
            step,
        ),
        forall|i: int|
            0 <= i < entries@.len() ==> text_bytes((#[trigger] entries@[i]).name@).len() < u32::MAX,
    ensures
        went_well(step),
        exists|at: Seq<int>|
            {
                let reply = step->result->Ok_0@;
                &&& #[trigger] places(at, step->result->Ok_0@, entries@)
                &&& reply.len() >= 16
                &&& forall|i: int| 0 <= i < 8 ==> #[trigger] reply[i] == 0
                &&& forall|i: int|
                    0 <= i < at.len() ==> #[trigger] at[i] + 116 + text_bytes(
                        entries@[i].name@,
                    ).len() <= maxcount
                &&& at.len() < entries@.len() ==> {
                    let next = entries@[at.len() as int];
                    ||| reply.len() - 8 + 116 + text_bytes(next.name@).len() > maxcount
                    ||| exists|part: Seq<u8>| #[trigger]
                        crate::op_dir::is_part(next, request@, part)
                }
                &&& be32_at(reply.skip(reply.len() - 8)) == 0
                &&& be32_at(reply.skip(reply.len() - 4)) == if end && at.len() == entries@.len() {
                    1u32
                } else {
                    0u32
                }
            },
{
    reveal(CompoundHandler::has_resumed);
    let (fattrs, part) = choose|fattrs: Seq<Fattr4>, part: Seq<u8>|
        {
            &&& #[trigger] crate::op_dir::has_listed(entries@, request@, maxcount, fattrs, part)
            &&& crate::ops::answers_with(
                step,
                crate::op_dir::listing(entries@, fattrs, fattrs.len() as int) + part + be_bool(
                    false,
                ) + be_bool(end && fattrs.len() == entries@.len()),
            )
        };
    let n = fattrs.len() as int;
    let last = be_bool(end && fattrs.len() == entries@.len());
    let tail = part + be_bool(false) + last;
    let reply = step->result->Ok_0@;
    let at = listing_told(entries@, fattrs, n, tail);
    assert(reply =~= crate::op_dir::listing(entries@, fattrs, n) + tail);
    assert(reply.skip(reply.len() - 8) =~= be32(0) + last);
    assert(reply.skip(reply.len() - 4) =~= last + Seq::empty());
    be32_round_trip(0, last);
    be32_round_trip(
        if end && at.len() == entries@.len() {
            1u32
        } else {
            0u32
        },
        Seq::empty(),
    );
    assert forall|i: int| 0 <= i < at.len() implies #[trigger] at[i] + 116 + text_bytes(
        entries@[i].name@,
    ).len() <= maxcount by {
        reveal(crate::op_dir::entry_name);
        assert(crate::op_dir::is_placed(entries@, request@, maxcount, fattrs, i));
    }
    assert(places(at, reply, entries@));
    if n < entries@.len() {
        reveal(crate::op_dir::entry_name);
    }
}

} // verus!
