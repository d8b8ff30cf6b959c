//! What the operations of a compound request have in common.

use crate::args::{OpenDowngradeArgs, ReadArgs, WriteArgs};
use crate::attrs::SetAttrs;
use crate::backchannel::Outbound;
use crate::bytes::Reader;
use crate::error::{failure, fails_with, Nfs4Error, Nfs4Result, Nfs4Status};
use crate::op_data::Making;
use crate::op_open::Opening;
use crate::pnfs::BlockRead;
use crate::storage::{FsAnswer, FsCall};
use crate::types::{Fattr4, FileStatus, Fileid4, Stateid4};
use crate::xdr::{Decode, XDR};
use vstd::prelude::*;

verus! {

/// An operation that waits for the end of a call.
#[derive(Debug)]
pub enum OpTask {
    /// The status of a file is fetched whose attributes are asked for.
    Getattr { fileid: Fileid4, request: Vec<u32> },
    /// How far the file was written is fetched too.
    GetattrPos { request: Vec<u32>, status: FileStatus },
    Lookup,
    Access { access: u32 },
    /// The status of a file is fetched whose changes are to last.
    CommitCheck { fileid: Fileid4 },
    Committing,
    Readlink,
    Link,
    Secinfo,
    /// The status of a file is fetched that is compared with what a client has of it. Where
    /// `differ` is set, it is an error that they are the same, and otherwise that they are not.
    Compare { fattr: Fattr4, differ: bool },
    Setattr { mask: Vec<u32> },
    RemoveBefore { parent: Fileid4, name: String },
    Removing { parent: Fileid4, before: u64 },
    Removed { before: u64 },
    RenameFrom { from: Fileid4, from_name: String, to: Fileid4, to_name: String },
    RenameTo { from: Fileid4, from_name: String, to: Fileid4, to_name: String, from_before: u64 },
    Renaming { from: Fileid4, to: Fileid4, from_before: u64, to_before: u64 },
    RenamedFrom { to: Fileid4, from_before: u64, to_before: u64 },
    RenamedTo { from_before: u64, from_after: u64, to_before: u64 },
    ReadCheck { fileid: Fileid4, args: ReadArgs },
    /// A file is read; where `whole` is set, these are its first bytes and it has so many.
    Reading { fileid: Fileid4, whole: Option<u64> },
    WriteCheck { fileid: Fileid4, args: WriteArgs },
    Writing { fileid: Fileid4 },
    Readdir { maxcount: u32, request: Vec<u32> },
    CreateCheck { parent: Fileid4, making: Making },
    Creating { parent: Fileid4, set: SetAttrs, mask: Vec<u32>, before: u64 },
    CreateSet { parent: Fileid4, fileid: Fileid4, mask: Vec<u32>, before: u64 },
    Created { mask: Vec<u32>, before: u64 },
    DowngradeCheck { args: OpenDowngradeArgs },
    Closing { stateid: Stateid4 },
    Open(Opening),
}

/// How an operation goes on.
#[derive(Debug)]
pub enum OpStep {
    /// The file system is called.
    Call { task: OpTask, call: FsCall },
    /// A block is read.
    Block { read: BlockRead },
    /// A client is called back; the operation fails, with what the sending comes to.
    Send { message: Outbound },
    /// There is no place for another callback. It is waited for a while that there is one.
    Wait { later: OpTask },
    /// The request was answered before, with these bytes, and is over.
    Replay { reply: Vec<u8> },
    /// The operation is over.
    Done { result: Nfs4Result<Vec<u8>> },
}

/// Whether an operation has succeeded with the given bytes.
pub open spec fn gives(r: Nfs4Result<Vec<u8>>, bytes: Seq<u8>) -> bool {
    r is Ok && r->Ok_0@ == bytes
}

/// Whether an operation is over, with the given bytes.
pub open spec fn answers_with(step: OpStep, bytes: Seq<u8>) -> bool {
    step is Done && gives(step->result, bytes)
}

/// Whether an operation is over, with a failure.
pub open spec fn gives_up(step: OpStep, status: Nfs4Status) -> bool {
    step is Done && fails_with(step->result, status)
}

/// Ends an operation with a failure.
pub fn give_up(status: Nfs4Status) -> (r: OpStep)
    ensures
        gives_up(r, status),
{
    OpStep::Done { result: failure(status) }
}

/// Ends an operation with bytes.
pub fn answer_with(bytes: Vec<u8>) -> (r: OpStep)
    ensures
        answers_with(r, bytes@),
{
    OpStep::Done { result: Ok(bytes) }
}

/// Ends an operation with what a part of it failed with.
pub fn pass_on(e: Nfs4Error) -> (r: OpStep)
    ensures
        r == (OpStep::Done { result: Err(e) }),
{
    OpStep::Done { result: Err(e) }
}

/// Whether an operation is over because a call has failed, or has come to what it cannot come to.
pub open spec fn stops(answer: Nfs4Result<FsAnswer>, step: OpStep) -> bool {
    match answer {
        Err(e) => step == (OpStep::Done { result: Err(e) }),
        Ok(_) => gives_up(step, Nfs4Status::Serverfault),
    }
}

/// Ends an operation whose call has failed.
pub fn stop(answer: Nfs4Result<FsAnswer>) -> (r: OpStep)
    ensures
        stops(answer, r),
{
    match answer {
        Err(e) => pass_on(e),
        Ok(_) => give_up(Nfs4Status::Serverfault),
    }
}

/// Whether the status of a file is fetched.
pub open spec fn fetches(step: OpStep, task: OpTask, fileid: Fileid4) -> bool {
    step == (OpStep::Call { task, call: FsCall::Status { fileid } })
}

/// Fetches the status of a file.
pub fn fetch(task: OpTask, fileid: Fileid4) -> (r: OpStep)
    ensures
        fetches(r, task, fileid),
{
    OpStep::Call { task, call: FsCall::Status { fileid } }
}

/// Whether a name is looked for in a directory.
pub open spec fn looks_up(step: OpStep, task: OpTask, parent: Fileid4, name: Seq<char>) -> bool {
    &&& step is Call
    &&& step->task == task
    &&& step->call is Lookup
    &&& step->call->Lookup_parent == parent
    &&& step->call->Lookup_name@ == name
}

/// Looks for a name in a directory.
pub fn look_up(task: OpTask, parent: Fileid4, name: String) -> (r: OpStep)
    ensures
        looks_up(r, task, parent, name@),
{
    OpStep::Call { task, call: FsCall::Lookup { parent, name } }
}

/// The number that stands for the state of a directory: when it was last changed.
pub open spec fn change_of(status: FileStatus) -> u64 {
    status.mtime as u64
}

/// The number that stands for the state of a directory.
pub fn change_number(status: &FileStatus) -> (r: u64)
    ensures
        r == change_of(*status),
{
    #[verifier::truncate]
    (status.mtime as u64)
}

/// What a client is told of how a directory has changed.
pub open spec fn change_bytes(before: u64, after: u64) -> Seq<u8> {
    crate::bytes::be_bool(true) + crate::bytes::be64(before) + crate::bytes::be64(after)
}

/// Writes how a directory has changed.
pub fn put_change(out: &mut Vec<u8>, before: u64, after: u64)
    ensures
        final(out)@ == old(out)@ + change_bytes(before, after),
{
    let ghost o = out@;
    crate::bytes::put_bool(out, true);
    crate::bytes::put_u64(out, before);
    crate::bytes::put_u64(out, after);
    assert(out@ =~= o + change_bytes(before, after));
}

/// Whether `r` is what reading the arguments of an operation comes to: they are there and what is
/// left starts behind them, or the operation fails.
pub open spec fn has_read<T: Decode>(s: Seq<u8>, left: Seq<u8>, r: Nfs4Result<T>) -> bool {
    match T::decoded_len(s) {
        Ok(n) => {
            &&& r is Ok
            &&& r->Ok_0.decodes_to(s)
            &&& n <= s.len()
            &&& left == s.skip(n as int)
        },
        Err(_) => fails_with(r, Nfs4Status::Io),
    }
}

/// Reads the arguments of an operation.
pub fn read_args<T: Decode>(input: &mut Reader<'_>) -> (r: Nfs4Result<T>)
    ensures
        has_read(old(input)@, final(input)@, r),
{
    match T::decode(input) {
        Ok(v) => Ok(v),
        Err(_) => failure(Nfs4Status::Io),
    }
}

/// A stateid as an answer.
pub fn stateid_reply(sid: &Stateid4) -> (r: Nfs4Result<Vec<u8>>)
    ensures
        gives(r, sid.encoding()),
{
    let mut out: Vec<u8> = Vec::new();
    let _ = sid.serialize(&mut out);
    assert(out@ =~= sid.encoding());
    Ok(out)
}

} // verus!
