//! The operations on what is in files and directories.

use crate::args::{CreateArgs, ReadArgs, WriteArgs, NF4BLK, NF4CHR, NF4LNK};
use crate::attrs::{parse_create_attrs, parsed, SetAttrs};
use crate::bytes::{be32, be_bool, le64, opaque, put_bool, put_le64, put_opaque, put_u32, XdrError};
use crate::compound::{CompoundContext, CompoundHandler};
use crate::error::{Nfs4Error, Nfs4Result, Nfs4Status};
use crate::fs::handle_of;
use crate::open::SHARE_WRITE;
use crate::ops::{
    answer_with, answers_with, change_bytes, change_number, change_of, fetch, fetches, give_up,
    gives, gives_up, pass_on, put_change, stop, stops, OpStep, OpTask,
};
use crate::pnfs::{block_len, block_plan, BlockPlan, BlockRead, PnfsDataServer};
use crate::storage::{FsAnswer, FsCall};
use crate::text::{is_name, lossy_text, text_bytes, text_of, validate_filename};
use crate::types::{FileStatus, FileType, Fileid4};
use crate::xdr::XDR;
use vstd::prelude::*;

verus! {

broadcast use vstd::std_specs::hash::group_hash_axioms;

// ---------------------------------------------------------------------------
// Reading
// ---------------------------------------------------------------------------

/// What a client is told that reads.
pub open spec fn read_bytes(data: Seq<u8>, eof: bool) -> Seq<u8> {
    be_bool(eof) + opaque(data)
}

fn build_read_response(data: &[u8], eof: bool) -> (r: Vec<u8>)
    ensures
        r@ == read_bytes(data@, eof),
{
    let mut out: Vec<u8> = Vec::new();
    put_bool(&mut out, eof);
    put_opaque(&mut out, data);
    assert(out@ =~= read_bytes(data@, eof));
    out
}

/// How much of a file is read where `count` bytes are asked for: no more than is read at once, and
/// no more than there is.
pub open spec fn read_count(offset: u64, count: u32, size: u64, most: u32) -> u32 {
    let n = if count > most {
        most
    } else {
        count
    };
    if offset >= size {
        0
    } else if offset + n > size {
        (size - offset) as u32
    } else {
        n
    }
}

fn check_read_limits(offset: u64, count: u32, size: u64, most: u32) -> (r: u32)
    ensures
        r == read_count(offset, count, size, most),
{
    let n: u32 = if count > most {
        most
    } else {
        count
    };
    if offset >= size {
        0
    } else if n as u64 > size - offset {
        (size - offset) as u32
    } else {
        n
    }
}

/// The length of a file, as clients are told it.
pub open spec fn size_of(status: FileStatus) -> u64 {
    status.len as u64
}

/// What is given of a whole file that is remembered.
pub open spec fn first_bytes(data: Seq<u8>, count: u32) -> Seq<u8> {
    read_bytes(
        data.take(
            if count < data.len() {
                count as int
            } else {
                data.len() as int
            },
        ),
        count >= data.len(),
    )
}

impl CompoundHandler {
    /// What reading begins with.
    pub open spec fn has_begun_to_read(
        &self,
        ctx: CompoundContext,
        args: ReadArgs,
        step: OpStep,
    ) -> bool {
        match ctx.current_fh {
            None => gives_up(step, Nfs4Status::Nofilehandle),
            Some(fh) => match self.block_target(fh@) {
                Err(st) => gives_up(step, st),
                Ok(Some(h)) => if !args.stateid.special() {
                    gives_up(step, Nfs4Status::BadStateid)
                } else {
                    match block_plan(h.block, args.offset, args.count) {
                        BlockPlan::Nothing => answers_with(step, read_bytes(Seq::empty(), true)),
                        BlockPlan::Part(read) => step == (OpStep::Block { read }),
                    }
                },
                Ok(None) => match self.target(ctx) {
                    Err(st) => gives_up(step, st),
                    Ok(fileid) => fetches(step, OpTask::ReadCheck { fileid, args }, fileid),
                },
            },
        }
    }

    /// Begins to read.
    pub fn op_read(&self, ctx: &CompoundContext, args: ReadArgs) -> (r: OpStep)
        ensures
            self.has_begun_to_read(*ctx, args, r),
    {
        let fh = match ctx.require_current_fh() {
            Ok(fh) => fh,
            Err(e) => {
                return pass_on(e);
            },
        };
        let block = match self.pnfs_block_handle(fh) {
            Ok(b) => b,
            Err(e) => {
                return pass_on(e);
            },
        };
        if let Some(h) = block {
            if let Some(ds) = &self.data_server {
                return match ds.plan(&h, &args.stateid, args.offset, args.count) {
                    Err(e) => pass_on(e),
                    Ok(BlockPlan::Nothing) => {
                        let none: Vec<u8> = Vec::new();
                        assert(none@ =~= Seq::empty());
                        answer_with(build_read_response(none.as_slice(), true))
                    },
                    Ok(BlockPlan::Part(read)) => OpStep::Block { read },
                };
            }
        }
        match self.current_file(ctx) {
            Err(e) => pass_on(e),
            Ok(fileid) => fetch(OpTask::ReadCheck { fileid, args }, fileid),
        }
    }

    /// A part of a block was read.
    pub open spec fn block_read_done_result(
        read: BlockRead,
        got: Nfs4Result<Vec<u8>>,
        r: Nfs4Result<Vec<u8>>,
    ) -> bool {
        match got {
            Ok(data) => gives(
                r,
                read_bytes(data@, read.offset + data@.len() >= block_len(read.block)),
            ),
            Err(e) => r == Err::<Vec<u8>, Nfs4Error>(e),
        }
    }

    /// A part of a block was read.
    pub fn block_read_done(read: BlockRead, got: Nfs4Result<Vec<u8>>) -> (r: Nfs4Result<Vec<u8>>)
        ensures
            Self::block_read_done_result(read, got, r),
    {
        match got {
            Ok(data) => {
                let eof = PnfsDataServer::at_end(&read, data.len());
                Ok(build_read_response(data.as_slice(), eof))
            },
            Err(e) => Err(e),
        }
    }

    /// Whether a read is of the first bytes of a file that is small enough to be remembered.
    pub open spec fn is_small(&self, args: ReadArgs, status: FileStatus) -> bool {
        args.offset == 0 && size_of(status) <= self.fs.config.max_cacheable_file_size
    }

    /// What is read from the storage.
    pub open spec fn has_gone_to_read(
        &self,
        fileid: Fileid4,
        args: ReadArgs,
        status: FileStatus,
        step: OpStep,
    ) -> bool {
        let count = read_count(
            args.offset,
            args.count,
            size_of(status),
            self.fs.config.max_read_size,
        );
        let task = OpTask::Reading {
            fileid,
            whole: if self.is_small(args, status) {
                Some(size_of(status))
            } else {
                None
            },
        };
        if args.stateid.special() {
            step == (OpStep::Call {
                task,
                call: FsCall::Read { fileid, offset: args.offset, count },
            })
        } else {
            match self.opens.named(args.stateid) {
                None => gives_up(step, Nfs4Status::BadStateid),
                Some(k) => step == (OpStep::Call {
                    task,
                    call: FsCall::ReadOpen {
                        fileid: self.opens.states@[k].fileid,
                        offset: args.offset,
                        count,
                    },
                }),
            }
        }
    }

    /// The kind and the length of the file are known. A small file may be remembered whole; all
    /// else is read from the storage.
    pub open spec fn read_check_step(
        &self,
        fileid: Fileid4,
        args: ReadArgs,
        answer: Nfs4Result<FsAnswer>,
        step: OpStep,
    ) -> bool {
        match answer {
            Ok(FsAnswer::Status(s)) => if s.file_type != FileType::File {
                gives_up(step, Nfs4Status::Inval)
            } else {
                ||| self.is_small(args, s) && self.fs.contents().contains_key(fileid)
                    && answers_with(step, first_bytes(self.fs.contents()[fileid], args.count))
                ||| self.has_gone_to_read(fileid, args, s, step)
            },
            _ => stops(answer, step),
        }
    }

    /// The kind and the length of the file are known. A small file may be remembered whole; all
    /// else is read from the storage.
    pub fn read_check(&self, fileid: Fileid4, args: ReadArgs, answer: Nfs4Result<FsAnswer>) -> (r:
        OpStep)
        ensures
            self.read_check_step(fileid, args, answer, r),
    {
        let status = match answer {
            Ok(FsAnswer::Status(s)) => s,
            _ => {
                return stop(answer);
            },
        };
        if status.file_type != FileType::File {
            return give_up(Nfs4Status::Inval);
        }
        let size: u64 = #[verifier::truncate] (status.len as u64);
        let mut found: Option<Vec<u8>> = None;
        if args.offset == 0 && size <= self.fs.config.max_cacheable_file_size {
            found = self.fs.get_file_data(fileid);
        }
        self.read_with(fileid, args, status, found)
    }

    /// Reads a file whose kind and length are known, with what was found to be remembered of it: of
    /// a small file that is remembered, the first bytes; all else is read from the storage.
    pub fn read_with(
        &self,
        fileid: Fileid4,
        args: ReadArgs,
        status: FileStatus,
        found: Option<Vec<u8>>,
    ) -> (r: OpStep)
        ensures
            match found {
                Some(data) if self.is_small(args, status) => answers_with(
                    r,
                    first_bytes(data@, args.count),
                ),
                _ => self.has_gone_to_read(fileid, args, status, r),
            },
    {
        let size: u64 = #[verifier::truncate] (status.len as u64);
        let small = args.offset == 0 && size <= self.fs.config.max_cacheable_file_size;
        if small {
            if let Some(data) = found {
                let n: usize = if (args.count as usize) < data.len() {
                    args.count as usize
                } else {
                    data.len()
                };
                let part = vstd::slice::slice_subrange(data.as_slice(), 0, n);
                assert(part@ =~= data@.take(n as int));
                return answer_with(build_read_response(part, n >= data.len()));
            }
        }
        let count: u32 = check_read_limits(
            args.offset,
            args.count,
            size,
            self.fs.config.max_read_size,
        );
        let whole = if small {
            Some(size)
        } else {
            None
        };
        let task = OpTask::Reading { fileid, whole };
        if args.stateid.is_special() {
            return OpStep::Call {
                task,
                call: FsCall::Read { fileid, offset: args.offset, count },
            };
        }
        match self.opens.get_state(&args.stateid) {
            None => give_up(Nfs4Status::BadStateid),
            Some(open) => OpStep::Call {
                task,
                call: FsCall::ReadOpen { fileid: open.fileid, offset: args.offset, count },
            },
        }
    }

    /// The file was read. It is remembered when all of it was.
    pub open spec fn reading_done_step(
        &self,
        before: &CompoundHandler,
        fileid: Fileid4,
        whole: Option<u64>,
        answer: Nfs4Result<FsAnswer>,
        step: OpStep,
    ) -> bool {
        &&& *self == (CompoundHandler { fs: self.fs, ..*before })
        &&& match answer {
            Ok(FsAnswer::Data { data, eof }) => {
                &&& answers_with(step, read_bytes(data@, eof))
                &&& if eof && whole is Some && whole->Some_0 == data@.len() {
                    &&& self.fs.contents() == before.fs.contents().insert(
                        fileid,
                        data@,
                    )
                    &&& self.fs.statuses() == before.fs.statuses()
                    &&& self.fs.same_config(&before.fs)
                    &&& self.fs.same_paths(&before.fs)
                    &&& self.fs.same_files(&before.fs)
                } else {
                    self.fs == before.fs
                }
            },
            _ => stops(answer, step) && self.fs == before.fs,
        }
    }

    /// The file was read. It is remembered when all of it was.
    pub fn reading_done(
        &mut self,
        fileid: Fileid4,
        whole: Option<u64>,
        answer: Nfs4Result<FsAnswer>,
    )
        -> (r: OpStep)
        requires
            old(self).wf(),
        ensures
            final(self).wf(),
            final(self).reading_done_step(old(self), fileid, whole, answer, r),
    {
        match answer {
            Ok(FsAnswer::Data { data, eof }) => {
                let out = build_read_response(data.as_slice(), eof);
                let complete = match whole {
                    Some(size) => eof && size == data.len() as u64,
                    None => false,
                };
                if complete {
                    self.fs.insert_file_data(fileid, data);
                }
                answer_with(out)
            },
            _ => stop(answer),
        }
    }

    // -----------------------------------------------------------------------
    // Writing
    // -----------------------------------------------------------------------

    /// Begins to write.
    pub open spec fn write_step(
        &self,
        ctx: CompoundContext,
        args: WriteArgs,
        step: OpStep,
    ) -> bool {
        match self.target(ctx) {
            Err(st) => gives_up(step, st),
            Ok(fileid) => fetches(step, OpTask::WriteCheck { fileid, args }, fileid),
        }
    }

    /// Begins to write.
    pub fn op_write(&self, ctx: &CompoundContext, args: WriteArgs) -> (r: OpStep)
        ensures
            self.write_step(*ctx, args, r),
    {
        match self.current_file(ctx) {
            Err(e) => pass_on(e),
            Ok(fileid) => fetch(OpTask::WriteCheck { fileid, args }, fileid),
        }
    }

    /// What is written where `data` is given: no more than is written at once.
    pub open spec fn written_part(&self, data: Seq<u8>) -> Seq<u8> {
        if data.len() > self.fs.config.max_write_size {
            data.take(self.fs.config.max_write_size as int)
        } else {
            data
        }
    }

    /// What is written to the storage.
    pub open spec fn has_gone_to_write(
        &self,
        fileid: Fileid4,
        args: WriteArgs,
        step: OpStep,
    ) -> bool {
        if args.stateid.special() {
            &&& step is Call
            &&& step->task == (OpTask::Writing { fileid })
            &&& step->call is Write
            &&& step->call->Write_fileid == fileid
            &&& step->call->Write_offset == args.offset
            &&& step->call->Write_data@ == self.written_part(args.data@)
        } else {
            match self.opens.named(args.stateid) {
                None => gives_up(step, Nfs4Status::BadStateid),
                Some(k) => if self.opens.states@[k].share_access & SHARE_WRITE == 0 {
                    gives_up(step, Nfs4Status::Openmode)
                } else {
                    &&& step is Call
                    &&& step->task == (OpTask::Writing { fileid: self.opens.states@[k].fileid })
                    &&& step->call is WriteOpen
                    &&& step->call->WriteOpen_fileid == self.opens.states@[k].fileid
                    &&& step->call->WriteOpen_offset == args.offset
                    &&& step->call->WriteOpen_data@ == self.written_part(args.data@)
                    &&& step->call->sync == (args.stable != 0)
                },
            }
        }
    }

    /// The kind of the file is known.
    pub open spec fn write_check_step(
        &self,
        fileid: Fileid4,
        args: WriteArgs,
        answer: Nfs4Result<FsAnswer>,
        step: OpStep,
    ) -> bool {
        match answer {
            Ok(FsAnswer::Status(s)) => if s.file_type != FileType::File {
                gives_up(step, Nfs4Status::Inval)
            } else {
                self.has_gone_to_write(fileid, args, step)
            },
            _ => stops(answer, step),
        }
    }

    /// The kind of the file is known.
    pub fn write_check(&self, fileid: Fileid4, args: WriteArgs, answer: Nfs4Result<FsAnswer>) -> (r:
        OpStep)
        ensures
            self.write_check_step(fileid, args, answer, r),
    {
        let status = match answer {
            Ok(FsAnswer::Status(s)) => s,
            _ => {
                return stop(answer);
            },
        };
        if status.file_type != FileType::File {
            return give_up(Nfs4Status::Inval);
        }
        let mut data = args.data;
        let most: usize = self.fs.config.max_write_size as usize;
        if data.len() > most {
            data.truncate(most);
        }
        assert(data@ =~= self.written_part(args.data@));
        if args.stateid.is_special() {
            return OpStep::Call {
                task: OpTask::Writing { fileid },
                call: FsCall::Write { fileid, offset: args.offset, data },
            };
        }
        match self.opens.get_state(&args.stateid) {
            None => give_up(Nfs4Status::BadStateid),
            Some(open) => {
                if !open.can_write() {
                    return give_up(Nfs4Status::Openmode);
                }
                OpStep::Call {
                    task: OpTask::Writing { fileid: open.fileid },
                    call: FsCall::WriteOpen {
                        fileid: open.fileid,
                        offset: args.offset,
                        data,
                        sync: args.stable != 0,
                    },
                }
            },
        }
    }

    /// What a client is told that has written: how much, whether it lasts, and when the server was
    /// started.
    pub open spec fn written_bytes(&self, count: u32, synced: bool) -> Seq<u8> {
        be32(count) + be32(
            if synced {
                2u32
            } else {
                0u32
            },
        ) + le64(self.boot_time)
    }

    /// The file was written. What was remembered of it no longer holds.
    pub open spec fn writing_done_step(
        &self,
        before: &CompoundHandler,
        fileid: Fileid4,
        answer: Nfs4Result<FsAnswer>,
        step: OpStep,
    ) -> bool {
        &&& *self == (CompoundHandler { fs: self.fs, ..*before })
        &&& match answer {
            Ok(FsAnswer::Written { count, synced }) => {
                &&& answers_with(step, before.written_bytes(count, synced))
                &&& self.fs.contents() == before.fs.contents().remove(fileid)
                &&& self.fs.statuses() == before.fs.statuses().remove(fileid)
                &&& self.fs.same_config(&before.fs)
                &&& self.fs.same_paths(&before.fs)
                &&& self.fs.same_files(&before.fs)
            },
            _ => stops(answer, step) && self.fs == before.fs,
        }
    }

    /// The file was written. What was remembered of it no longer holds.
    pub fn writing_done(&mut self, fileid: Fileid4, answer: Nfs4Result<FsAnswer>) -> (r: OpStep)
        requires
            old(self).wf(),
        ensures
            final(self).wf(),
            final(self).writing_done_step(old(self), fileid, answer, r),
    {
        match answer {
            Ok(FsAnswer::Written { count, synced }) => {
                self.fs.invalidate_file_data(fileid);
                self.fs.invalidate_status_cache_for_write(fileid);
                let mut out: Vec<u8> = Vec::new();
                put_u32(&mut out, count);
                put_u32(
                    &mut out,
                    if synced {
                        2
                    } else {
                        0
                    },
                );
                put_le64(&mut out, self.boot_time);
                assert(out@ =~= self.written_bytes(count, synced));
                answer_with(out)
            },
            _ => stop(answer),
        }
    }

    // -----------------------------------------------------------------------
    // Making things other than files
    // -----------------------------------------------------------------------

    /// What making something begins with.
    pub open spec fn has_begun_to_create(
        &self,
        ctx: CompoundContext,
        args: CreateArgs,
        step: OpStep,
    ) -> bool {
        if not_settable(args.fattr.attrmask@) {
            gives_up(step, Nfs4Status::AttrNotsupp)
        } else {
            exists|p: Result<SetAttrs, XdrError>|
                {
                    &&& #[trigger] parsed(args.fattr, p)
                    &&& match p {
                        Err(_) => gives_up(step, Nfs4Status::Io),
                        Ok(set) => match self.target(ctx) {
                            Err(st) => gives_up(step, st),
                            Ok(parent) => {
                                &&& step is Call
                                &&& step->task is CreateCheck
                                &&& step->task->CreateCheck_parent == parent
                                &&& step->task->making.is_for(args, set)
                                &&& step->call == (FsCall::Status { fileid: parent })
                            },
                        },
                    }
                }
        }
    }

    /// Begins to make something that is not a file.
    pub fn op_create(&self, ctx: &CompoundContext, args: CreateArgs) -> (r: OpStep)
        ensures
            self.has_begun_to_create(*ctx, args, r),
    {
        let mask = &args.fattr.attrmask;
        if mask.len() > 0 && (mask[0] & !0x10u32 != 0 || mask.len() > 1 && mask[1] & !0x0041_0032u32
            != 0) {
            return give_up(Nfs4Status::AttrNotsupp);
        }
        let p = parse_create_attrs(&args.fattr);
        assert(parsed(args.fattr, p));
        let set = match p {
            Ok(set) => set,
            Err(_) => {
                return give_up(Nfs4Status::Io);
            },
        };
        match self.current_file(ctx) {
            Err(e) => pass_on(e),
            Ok(parent) => {
                let making = Making {
                    obj_type: args.kind.obj_type,
                    name: text_of(args.objname.as_slice()),
                    target: match &args.kind.link {
                        Some(link) => Some(text_of(link.as_slice())),
                        None => None,
                    },
                    set,
                    mask: args.fattr.attrmask,
                };
                fetch(OpTask::CreateCheck { parent, making }, parent)
            },
        }
    }

    /// The kind of the directory is known, and so is what it is before.
    pub open spec fn create_check_step(
        parent: Fileid4,
        making: Making,
        answer: Nfs4Result<FsAnswer>,
        step: OpStep,
    ) -> bool {
        match answer {
            Ok(FsAnswer::Status(s)) => if s.file_type != FileType::Dir {
                gives_up(step, Nfs4Status::Notdir)
            } else {
                match making.fault() {
                    Some(st) => gives_up(step, st),
                    None => {
                        &&& step is Call
                        &&& step->task == (OpTask::Creating {
                            parent,
                            set: making.attrs(),
                            mask: making.mask,
                            before: change_of(s),
                        })
                        &&& step->call == if making.obj_type == NF4DIR {
                            FsCall::Mkdir { parent, name: making.name }
                        } else {
                            FsCall::Symlink {
                                parent,
                                name: making.name,
                                target: making.target->Some_0,
                            }
                        }
                    },
                }
            },
            _ => stops(answer, step),
        }
    }

    /// The kind of the directory is known, and so is what it is before.
    pub fn create_check(
        parent: Fileid4,
        making: Making,
        answer: Nfs4Result<FsAnswer>,
    ) -> (r: OpStep)
        ensures
            Self::create_check_step(parent, making, answer, r),
    {
        let status = match answer {
            Ok(FsAnswer::Status(s)) => s,
            _ => {
                return stop(answer);
            },
        };
        if status.file_type != FileType::Dir {
            return give_up(Nfs4Status::Notdir);
        }
        if let Err(e) = validate_filename(making.name.as_str()) {
            return pass_on(e);
        }
        let kind: u32 = making.obj_type;
        if kind == NF4LNK {
            if let Some(t) = &making.target {
                if t.as_str().as_bytes().len() == 0 {
                    return give_up(Nfs4Status::Inval);
                }
            }
        }
        let mut set = making.set;
        if set.mode.is_none() {
            set.mode = Some(
                if kind == NF4DIR {
                    0o700
                } else {
                    0o600
                },
            );
        }
        let task = OpTask::Creating {
            parent,
            set,
            mask: making.mask,
            before: change_number(&status),
        };
        if kind == NF4DIR {
            OpStep::Call { task, call: FsCall::Mkdir { parent, name: making.name } }
        } else if kind == NF4LNK {
            match making.target {
                Some(target) => OpStep::Call {
                    task,
                    call: FsCall::Symlink { parent, name: making.name, target },
                },
                None => give_up(Nfs4Status::Inval),
            }
        } else if kind == NF4SOCK || kind == NF4FIFO || kind == NF4BLK || kind == NF4CHR {
            give_up(Nfs4Status::Notsupp)
        } else {
            give_up(Nfs4Status::Badtype)
        }
    }

    /// It was made: its attributes are set.
    pub open spec fn creating_done_step(
        parent: Fileid4,
        set: SetAttrs,
        mask: Vec<u32>,
        before: u64,
        answer: Nfs4Result<FsAnswer>,
        step: OpStep,
    ) -> bool {
        match answer {
            Ok(FsAnswer::Found { fileid, .. }) => step == (OpStep::Call {
                task: OpTask::CreateSet { parent, fileid, mask, before },
                call: FsCall::Setattr { fileid, set },
            }),
            _ => stops(answer, step),
        }
    }

    /// It was made: its attributes are set.
    pub fn creating_done(
        parent: Fileid4,
        set: SetAttrs,
        mask: Vec<u32>,
        before: u64,
        answer: Nfs4Result<FsAnswer>,
    ) -> (r: OpStep)
        ensures
            Self::creating_done_step(parent, set, mask, before, answer, r),
    {
        match answer {
            Ok(FsAnswer::Found { fileid, .. }) => OpStep::Call {
                task: OpTask::CreateSet { parent, fileid, mask, before },
                call: FsCall::Setattr { fileid, set },
            },
            _ => stop(answer),
        }
    }

    /// Its attributes are set: the request goes on there.
    pub open spec fn create_set_done_step(
        &self,
        ctx: CompoundContext,
        ctx2: CompoundContext,
        parent: Fileid4,
        fileid: Fileid4,
        mask: Vec<u32>,
        before: u64,
        answer: Nfs4Result<FsAnswer>,
        step: OpStep,
    ) -> bool {
        match answer {
            Ok(_) => {
                &&& fetches(step, OpTask::Created { mask, before }, parent)
                &&& ctx2.is_at(
                    ctx,
                    handle_of(self.fs.config.cluster_generation, fileid),
                )
            },
            Err(_) => stops(answer, step) && ctx2 == ctx,
        }
    }

    /// Its attributes are set: the request goes on there.
    pub fn create_set_done(
        &self,
        ctx: &mut CompoundContext,
        parent: Fileid4,
        fileid: Fileid4,
        mask: Vec<u32>,
        before: u64,
        answer: Nfs4Result<FsAnswer>,
    ) -> (r: OpStep)
        ensures
            self.create_set_done_step(*old(ctx), *final(ctx), parent, fileid, mask, before, answer, r),
    {
        if answer.is_err() {
            return stop(answer);
        }
        ctx.current_fh = Some(self.fs.fileid_to_fh(fileid));
        fetch(OpTask::Created { mask, before }, parent)
    }

    /// How the directory is now is known.
    pub open spec fn created_step(
        mask: Vec<u32>,
        before: u64,
        answer: Nfs4Result<FsAnswer>,
        step: OpStep,
    ) -> bool {
        match answer {
            Ok(FsAnswer::Status(s)) => if mask.encodable() {
                answers_with(step, change_bytes(before, change_of(s)) + mask.encoding())
            } else {
                gives_up(step, Nfs4Status::Io)
            },
            _ => stops(answer, step),
        }
    }

    /// How the directory is now is known.
    pub fn created(mask: Vec<u32>, before: u64, answer: Nfs4Result<FsAnswer>) -> (r: OpStep)
        ensures
            Self::created_step(mask, before, answer, r),
    {
        match answer {
            Ok(FsAnswer::Status(s)) => {
                let mut out: Vec<u8> = Vec::new();
                let after: u64 = change_number(&s);
                put_change(&mut out, before, after);
                assert(out@ =~= change_bytes(before, after));
                match mask.serialize(&mut out) {
                    Ok(_) => answer_with(out),
                    Err(_) => give_up(Nfs4Status::Io),
                }
            },
            _ => stop(answer),
        }
    }
}

/// The kind of a file.
pub const NF4REG: u32 = 1;

/// The kind of a directory.
pub const NF4DIR: u32 = 2;

/// The kind of a socket.
pub const NF4SOCK: u32 = 6;

/// The kind of a named pipe.
pub const NF4FIFO: u32 = 7;

/// Whether attributes are given that cannot be set on something new.
pub open spec fn not_settable(mask: Seq<u32>) -> bool {
    &&& mask.len() > 0
    &&& mask[0] & !0x10u32 != 0 || (mask.len() > 1 && mask[1] & !0x0041_0032u32 != 0)
}

/// Something that is to be made.
#[derive(Debug)]
pub struct Making {
    pub obj_type: u32,
    pub name: String,
    pub target: Option<String>,
    pub set: SetAttrs,
    pub mask: Vec<u32>,
}

impl Making {
    /// Whether this is what the arguments ask for.
    pub open spec fn is_for(&self, args: CreateArgs, set: SetAttrs) -> bool {
        &&& self.obj_type == args.kind.obj_type
        &&& self.name@ == lossy_text(args.objname@)
        &&& match args.kind.link {
            Some(link) => self.target is Some && self.target->Some_0@ == lossy_text(link@),
            None => self.target is None,
        }
        &&& self.set == set
        &&& self.mask == args.fattr.attrmask
    }

    /// Why it cannot be made, if it cannot. Files are made by opening them.
    pub open spec fn fault(&self) -> Option<Nfs4Status> {
        if !is_name(text_bytes(self.name@)) {
            Some(Nfs4Status::Inval)
        } else if self.obj_type == NF4DIR {
            None
        } else if self.obj_type == NF4LNK {
            if self.target is None || text_bytes(self.target->Some_0@).len() == 0 {
                Some(Nfs4Status::Inval)
            } else {
                None
            }
        } else if self.obj_type == NF4SOCK || self.obj_type == NF4FIFO || self.obj_type == NF4BLK
            || self.obj_type == NF4CHR {
            Some(Nfs4Status::Notsupp)
        } else {
            Some(Nfs4Status::Badtype)
        }
    }

    /// The attributes that it gets: its owner alone may use it, unless a mode is given.
    pub open spec fn attrs(&self) -> SetAttrs {
        if self.set.mode is Some {
            self.set
        } else if self.obj_type == NF4DIR {
            SetAttrs { mode: Some(0x1c0), ..self.set }
        } else {
            SetAttrs { mode: Some(0x180), ..self.set }
        }
    }
}

/// Once a file was written, neither its contents nor its size from before are remembered.
pub proof fn law_written_file_is_asked_for_anew(
    before: CompoundHandler,
    after: CompoundHandler,
    fileid: Fileid4,
    answer: Nfs4Result<FsAnswer>,
    step: OpStep,
)
    requires
        after.writing_done_step(&before, fileid, answer, step),
        answer is Ok,
        answer->Ok_0 is Written,
    ensures
        !after.fs.contents().contains_key(fileid),
        !after.fs.statuses().contains_key(fileid),
{
}

} // verus!
