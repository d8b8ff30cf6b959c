//! The operations on files that the storage is asked about: their names, attributes and places.

use crate::args::{List, RenameArgs, SetattrArgs};
use crate::attrs::{
    agrees, answers, asked_for, compare_fattr4, encode_fattr4, handle_bytes,
    names_wanted_do_not_fit, parse_setattr_attrs, parsed, SetAttrs, FATTR4_SIZE,
};
use crate::bytes::{be32, le64, opaque, put_le64, put_opaque, put_u32, XdrError};
use crate::compound::{target_of, CompoundContext, CompoundHandler};
use crate::error::{Nfs4Result, Nfs4Status};
use crate::fs::handle_of;
use crate::open::SHARE_WRITE;
use crate::ops::{
    answer_with, answers_with, change_bytes, change_number, change_of, fetch, fetches, give_up,
    gives_up, look_up, looks_up, pass_on, put_change, stop, stops, OpStep, OpTask,
};
use crate::storage::{FsAnswer, FsCall};
use crate::text::{is_name, lossy_text, text_bytes, text_of, validate_filename};
use crate::types::{
    used_by, used_bytes, Fattr4, FileAttrs, FileStatus, FileType, Fileid4, Nfs4FileHandle,
    Stateid4,
};
use crate::xdr::XDR;
use vstd::prelude::*;
use vstd::string::StringExecFns;

verus! {

/// The kinds of access that clients ask about.
pub const ACCESS_READ: u32 = 0x01;

/// Looking a name up in a directory.
pub const ACCESS_LOOKUP: u32 = 0x02;

/// Changing what is there.
pub const ACCESS_MODIFY: u32 = 0x04;

/// Adding to what is there.
pub const ACCESS_EXTEND: u32 = 0x08;

/// Taking a name out of a directory.
pub const ACCESS_DELETE: u32 = 0x10;

/// Running a file.
pub const ACCESS_EXECUTE: u32 = 0x20;

/// The kinds of access there can be for a kind of file.
pub open spec fn accesses(kind: FileType) -> u32 {
    match kind {
        FileType::Dir => 0x1f,
        FileType::File => 0x2d,
        _ => 0x01,
    }
}

/// The most that may be asked about.
pub open spec fn all_accesses(minor_version: u32) -> u32 {
    if minor_version >= 2 {
        0x1ff
    } else {
        0x3f
    }
}

/// ".."
pub open spec fn parent_name() -> Seq<char> {
    seq!['.', '.']
}

/// Whether the attributes are those of a file that was written up to `pos`, where that is known.
pub open spec fn attrs_at(attrs: FileAttrs, status: FileStatus, pos: Option<i64>) -> bool {
    match pos {
        None => attrs.is_of(status),
        Some(p) => exists|a: FileAttrs| #[trigger]
            a.is_of(status) && attrs == (FileAttrs {
                size: p as u64,
                used: used_bytes(p),
                ..a
            }),
    }
}

/// The handle of an operation, as bytes.
pub open spec fn current_bytes(ctx: CompoundContext) -> Option<Seq<u8>> {
    match ctx.current_fh {
        Some(fh) => Some(fh@),
        None => None,
    }
}

/// Whether an operation is over with the attributes of a file.
pub open spec fn tells_attrs(
    step: OpStep,
    attrs: FileAttrs,
    fh: Option<Seq<u8>>,
    request: Seq<u32>,
) -> bool {
    if names_wanted_do_not_fit(attrs, request) {
        gives_up(step, Nfs4Status::Io)
    } else {
        exists|fattr: Fattr4|
            {
                &&& #[trigger] answers(fattr, attrs, fh, request)
                &&& if fattr.encodable() {
                    answers_with(step, fattr.encoding())
                } else {
                    gives_up(step, Nfs4Status::Io)
                }
            }
    }
}

impl CompoundHandler {
    // -----------------------------------------------------------------------
    // Attributes
    // -----------------------------------------------------------------------

    /// Begins to tell the attributes of a file.
    pub open spec fn getattr_step(
        &self,
        ctx: CompoundContext,
        request: List<u32>,
        step: OpStep,
    ) -> bool {
        if request.items@.len() == 0 {
            answers_with(step, be32(0) + be32(0))
        } else {
            match self.target(ctx) {
                Err(st) => gives_up(step, st),
                Ok(fileid) => fetches(
                    step,
                    OpTask::Getattr { fileid, request: request.items },
                    fileid,
                ),
            }
        }
    }

    /// Begins to tell the attributes of a file.
    pub fn op_getattr(&self, ctx: &CompoundContext, request: List<u32>) -> (r: OpStep)
        ensures
            self.getattr_step(*ctx, request, r),
    {
        if request.items.len() == 0 {
            let mut out: Vec<u8> = Vec::new();
            put_u32(&mut out, 0);
            put_u32(&mut out, 0);
            assert(out@ =~= be32(0) + be32(0));
            return answer_with(out);
        }
        match self.current_file(ctx) {
            Err(e) => pass_on(e),
            Ok(fileid) => fetch(OpTask::Getattr { fileid, request: request.items }, fileid),
        }
    }

    /// The status of the file is there: how far it was written is wanted too.
    pub open spec fn getattr_status_step(
        fileid: Fileid4,
        request: Vec<u32>,
        answer: Nfs4Result<FsAnswer>,
        step: OpStep,
    ) -> bool {
        match answer {
            Ok(FsAnswer::Status(status)) => step == (OpStep::Call {
                task: OpTask::GetattrPos { request, status },
                call: FsCall::WriterPos { fileid },
            }),
            _ => stops(answer, step),
        }
    }

    /// The status of the file is there: how far it was written is wanted too.
    pub fn getattr_status(fileid: Fileid4, request: Vec<u32>, answer: Nfs4Result<FsAnswer>) -> (r:
        OpStep)
        ensures
            Self::getattr_status_step(fileid, request, answer, r),
    {
        match answer {
            Ok(FsAnswer::Status(status)) => OpStep::Call {
                task: OpTask::GetattrPos { request, status },
                call: FsCall::WriterPos { fileid },
            },
            _ => stop(answer),
        }
    }

    /// All is there that the attributes of a file are made of. A file that is being written is as
    /// long as it was written.
    pub open spec fn getattr_pos_step(
        ctx: CompoundContext,
        request: Vec<u32>,
        status: FileStatus,
        answer: Nfs4Result<FsAnswer>,
        step: OpStep,
    ) -> bool {
        match answer {
            Ok(FsAnswer::Position(pos)) => exists|attrs: FileAttrs| #[trigger]
                attrs_at(attrs, status, pos) && tells_attrs(
                    step,
                    attrs,
                    current_bytes(ctx),
                    request@,
                ),
            _ => stops(answer, step),
        }
    }

    /// All is there that the attributes of a file are made of. A file that is being written is as
    /// long as it was written.
    pub fn getattr_pos(
        ctx: &CompoundContext,
        request: Vec<u32>,
        status: FileStatus,
        answer: Nfs4Result<FsAnswer>,
    ) -> (r: OpStep)
        ensures
            Self::getattr_pos_step(*ctx, request, status, answer, r),
    {
        let pos = match answer {
            Ok(FsAnswer::Position(pos)) => pos,
            _ => {
                return stop(answer);
            },
        };
        let mut attrs = FileAttrs::from_status(&status);
        proof {
            crate::types::millis_countable(status.mtime);
        }
        let ghost plain = attrs;
        if let Some(p) = pos {
            attrs.size = #[verifier::truncate] (p as u64);
            attrs.used = used_by(p);
        }
        assert(plain.is_of(status));
        assert(attrs_at(attrs, status, pos));
        let fh = match &ctx.current_fh {
            Some(fh) => Some(fh),
            None => None,
        };
        assert(handle_bytes(fh) == current_bytes(*ctx));
        Self::tell_attrs(&attrs, fh, request.as_slice())
    }

    /// Tells the attributes of a file.
    fn tell_attrs(attrs: &FileAttrs, fh: Option<&Nfs4FileHandle>, request: &[u32]) -> (r: OpStep)
        requires
            attrs.mtime.countable(),
        ensures
            tells_attrs(r, *attrs, handle_bytes(fh), request@),
    {
        match encode_fattr4(attrs, request, fh) {
            Err(e) => pass_on(e),
            Ok(fattr) => {
                assert(answers(fattr, *attrs, handle_bytes(fh), request@));
                let mut out: Vec<u8> = Vec::new();
                match fattr.serialize(&mut out) {
                    Ok(_) => {
                        assert(out@ =~= fattr.encoding());
                        answer_with(out)
                    },
                    Err(_) => give_up(Nfs4Status::Io),
                }
            },
        }
    }

    /// Why attributes may not be set, if they may not: the length of a file may only be set by one
    /// who may write it, unless no state is named.
    pub open spec fn setattr_fault(&self, stateid: Stateid4, mask: Seq<u32>) -> Option<Nfs4Status> {
        if asked_for(mask, FATTR4_SIZE) && !stateid.special() {
            match self.opens.fault(stateid) {
                Some(st) => Some(st),
                None => if self.opens.states@[crate::bytes::key12(
                    stateid.other@,
                )].share_access & SHARE_WRITE == 0 {
                    Some(Nfs4Status::Openmode)
                } else {
                    None
                },
            }
        } else {
            None
        }
    }

    /// What setting attributes begins with.
    pub open spec fn has_begun_to_set(
        &self,
        ctx: CompoundContext,
        args: SetattrArgs,
        step: OpStep,
    ) -> bool {
        match self.target(ctx) {
            Err(st) => gives_up(step, st),
            Ok(fileid) => match self.setattr_fault(args.stateid, args.fattr.attrmask@) {
                Some(st) => gives_up(step, st),
                None => exists|p: Result<SetAttrs, XdrError>|
                    {
                        &&& #[trigger] parsed(args.fattr, p)
                        &&& match p {
                            Err(_) => gives_up(step, Nfs4Status::Io),
                            Ok(set) => step == (OpStep::Call {
                                task: OpTask::Setattr { mask: args.fattr.attrmask },
                                call: FsCall::Setattr { fileid, set },
                            }),
                        }
                    },
            },
        }
    }

    /// Begins to set attributes.
    pub fn op_setattr(&self, ctx: &CompoundContext, args: SetattrArgs) -> (r: OpStep)
        ensures
            self.has_begun_to_set(*ctx, args, r),
    {
        let fileid = match self.current_file(ctx) {
            Err(e) => {
                return pass_on(e);
            },
            Ok(f) => f,
        };
        let mask = &args.fattr.attrmask;
        let sets_size = mask.len() > 0 && mask[0] & 16 != 0;
        assert(sets_size == asked_for(mask@, FATTR4_SIZE)) by {
            assert((1u32 << 4u32) == 16) by (bit_vector);
        }
        if sets_size && !args.stateid.is_special() {
            match self.opens.verify_stateid(&args.stateid) {
                Err(e) => {
                    return pass_on(e);
                },
                Ok(open) => {
                    if open.get_access() & SHARE_WRITE == 0 {
                        return give_up(Nfs4Status::Openmode);
                    }
                },
            }
        }
        let p = parse_setattr_attrs(&args.fattr);
        assert(parsed(args.fattr, p));
        match p {
            Err(_) => give_up(Nfs4Status::Io),
            Ok(set) => OpStep::Call {
                task: OpTask::Setattr { mask: args.fattr.attrmask },
                call: FsCall::Setattr { fileid, set },
            },
        }
    }

    /// Attributes were set: all that were given.
    pub open spec fn setattr_done_step(
        mask: Vec<u32>,
        answer: Nfs4Result<FsAnswer>,
        step: OpStep,
    ) -> bool {
        match answer {
            Ok(_) => if mask.encodable() {
                answers_with(step, mask.encoding())
            } else {
                gives_up(step, Nfs4Status::Io)
            },
            Err(_) => stops(answer, step),
        }
    }

    /// Attributes were set: all that were given.
    pub fn setattr_done(mask: Vec<u32>, answer: Nfs4Result<FsAnswer>) -> (r: OpStep)
        ensures
            Self::setattr_done_step(mask, answer, r),
    {
        if answer.is_err() {
            return stop(answer);
        }
        let mut out: Vec<u8> = Vec::new();
        match mask.serialize(&mut out) {
            Ok(_) => {
                assert(out@ =~= mask.encoding());
                answer_with(out)
            },
            Err(_) => give_up(Nfs4Status::Io),
        }
    }

    /// Begins to compare the attributes that a client has of a file with those of the file.
    pub open spec fn compare_step(
        &self,
        ctx: CompoundContext,
        fattr: Fattr4,
        differ: bool,
        step: OpStep,
    ) -> bool {
        match self.target(ctx) {
            Err(st) => gives_up(step, st),
            Ok(fileid) => fetches(step, OpTask::Compare { fattr, differ }, fileid),
        }
    }

    /// Begins to compare the attributes that a client has of a file with those of the file.
    pub fn op_compare(&self, ctx: &CompoundContext, fattr: Fattr4, differ: bool) -> (r: OpStep)
        ensures
            self.compare_step(*ctx, fattr, differ, r),
    {
        match self.current_file(ctx) {
            Err(e) => pass_on(e),
            Ok(fileid) => fetch(OpTask::Compare { fattr, differ }, fileid),
        }
    }

    /// The status of the file is there. It goes on where the attributes are the same, or, if they
    /// are to differ, where they are not.
    pub open spec fn compare_done_step(
        ctx: CompoundContext,
        fattr: Fattr4,
        differ: bool,
        answer: Nfs4Result<FsAnswer>,
        step: OpStep,
    ) -> bool {
        match answer {
            Ok(FsAnswer::Status(status)) => exists|attrs: FileAttrs|
                {
                    &&& #[trigger] attrs.is_of(status)
                    &&& if names_wanted_do_not_fit(attrs, fattr.attrmask@) {
                        gives_up(step, Nfs4Status::Io)
                    } else if agrees(fattr, attrs, current_bytes(ctx)) {
                        if differ {
                            gives_up(step, Nfs4Status::Same)
                        } else {
                            answers_with(step, Seq::empty())
                        }
                    } else {
                        if differ {
                            answers_with(step, Seq::empty())
                        } else {
                            gives_up(step, Nfs4Status::NotSame)
                        }
                    }
                },
            _ => stops(answer, step),
        }
    }

    /// The status of the file is there. It goes on where the attributes are the same, or, if they
    /// are to differ, where they are not.
    pub fn compare_done(
        ctx: &CompoundContext,
        fattr: Fattr4,
        differ: bool,
        answer: Nfs4Result<FsAnswer>,
    ) -> (r: OpStep)
        ensures
            Self::compare_done_step(*ctx, fattr, differ, answer, r),
    {
        let status = match answer {
            Ok(FsAnswer::Status(status)) => status,
            _ => {
                return stop(answer);
            },
        };
        let attrs = FileAttrs::from_status(&status);
        proof {
            crate::types::millis_countable(status.mtime);
        }
        assert(attrs.is_of(status));
        let fh = match &ctx.current_fh {
            Some(fh) => Some(fh),
            None => None,
        };
        assert(handle_bytes(fh) == current_bytes(*ctx));
        match compare_fattr4(&fattr, &attrs, fh) {
            Err(e) => pass_on(e),
            Ok(same) => {
                if same && differ {
                    give_up(Nfs4Status::Same)
                } else if !same && !differ {
                    give_up(Nfs4Status::NotSame)
                } else {
                    answer_with(Vec::new())
                }
            },
        }
    }

    // -----------------------------------------------------------------------
    // Access
    // -----------------------------------------------------------------------

    /// Begins to tell what access there is to a file.
    pub open spec fn access_step(
        &self,
        ctx: CompoundContext,
        access: u32,
        step: OpStep,
    ) -> bool {
        if access > all_accesses(ctx.minor_version) {
            gives_up(step, Nfs4Status::Inval)
        } else {
            match self.target(ctx) {
                Err(st) => gives_up(step, st),
                Ok(fileid) => fetches(step, OpTask::Access { access }, fileid),
            }
        }
    }

    /// Begins to tell what access there is to a file.
    pub fn op_access(&self, ctx: &CompoundContext, access: u32) -> (r: OpStep)
        ensures
            self.access_step(*ctx, access, r),
    {
        let most: u32 = if ctx.minor_version >= 2 {
            0x1ff
        } else {
            0x3f
        };
        if access > most {
            return give_up(Nfs4Status::Inval);
        }
        match self.current_file(ctx) {
            Err(e) => pass_on(e),
            Ok(fileid) => fetch(OpTask::Access { access }, fileid),
        }
    }

    /// The kind of the file is known, and so is the access there can be: all that is asked about.
    pub open spec fn access_done_step(
        access: u32,
        answer: Nfs4Result<FsAnswer>,
        step: OpStep,
    ) -> bool {
        match answer {
            Ok(FsAnswer::Status(s)) => answers_with(
                step,
                be32(accesses(s.file_type)) + be32(access & accesses(s.file_type)),
            ),
            _ => stops(answer, step),
        }
    }

    /// The kind of the file is known, and so is the access there can be: all that is asked about.
    pub fn access_done(access: u32, answer: Nfs4Result<FsAnswer>) -> (r: OpStep)
        ensures
            Self::access_done_step(access, answer, r),
    {
        match answer {
            Ok(FsAnswer::Status(s)) => {
                let supported: u32 = match s.file_type {
                    FileType::Dir => 0x1f,
                    FileType::File => 0x2d,
                    _ => 0x01,
                };
                let mut out: Vec<u8> = Vec::new();
                put_u32(&mut out, supported);
                put_u32(&mut out, access & supported);
                assert(out@ =~= be32(supported) + be32(access & supported));
                answer_with(out)
            },
            _ => stop(answer),
        }
    }

    /// Begins to tell how a file may be got at.
    pub open spec fn secinfo_step(
        &self,
        ctx: CompoundContext,
        name: Vec<u8>,
        step: OpStep,
    ) -> bool {
        match self.target(ctx) {
            Err(st) => gives_up(step, st),
            Ok(parent) => looks_up(step, OpTask::Secinfo, parent, lossy_text(name@)),
        }
    }

    /// Begins to tell how a file may be got at.
    pub fn op_secinfo(&self, ctx: &CompoundContext, name: Vec<u8>) -> (r: OpStep)
        ensures
            self.secinfo_step(*ctx, name, r),
    {
        match self.current_file(ctx) {
            Err(e) => pass_on(e),
            Ok(parent) => look_up(OpTask::Secinfo, parent, text_of(name.as_slice())),
        }
    }

    /// How a file may be got at, which is the same for all, and for those that are not there.
    pub fn secinfo_done() -> (r: OpStep)
        ensures
            answers_with(r, be32(1) + be32(1)),
    {
        let mut out: Vec<u8> = Vec::new();
        put_u32(&mut out, 1);
        put_u32(&mut out, 1);
        assert(out@ =~= be32(1) + be32(1));
        answer_with(out)
    }

    // -----------------------------------------------------------------------
    // Names
    // -----------------------------------------------------------------------

    /// Begins to go to a file in a directory.
    pub open spec fn lookup_step(
        &self,
        ctx: CompoundContext,
        name: Vec<u8>,
        step: OpStep,
    ) -> bool {
        if !is_name(text_bytes(lossy_text(name@))) {
            gives_up(step, Nfs4Status::Inval)
        } else {
            match self.target(ctx) {
                Err(st) => gives_up(step, st),
                Ok(parent) => looks_up(step, OpTask::Lookup, parent, lossy_text(name@)),
            }
        }
    }

    /// Begins to go to a file in a directory.
    pub fn op_lookup(&self, ctx: &CompoundContext, name: Vec<u8>) -> (r: OpStep)
        ensures
            self.lookup_step(*ctx, name, r),
    {
        let name = text_of(name.as_slice());
        if let Err(e) = validate_filename(name.as_str()) {
            return pass_on(e);
        }
        match self.current_file(ctx) {
            Err(e) => pass_on(e),
            Ok(parent) => look_up(OpTask::Lookup, parent, name),
        }
    }

    /// Begins to go to the directory that a file is in.
    pub open spec fn lookupp_step(
        &self,
        ctx: CompoundContext,
        step: OpStep,
    ) -> bool {
        match self.target(ctx) {
            Err(st) => gives_up(step, st),
            Ok(parent) => looks_up(step, OpTask::Lookup, parent, parent_name()),
        }
    }

    /// Begins to go to the directory that a file is in.
    pub fn op_lookupp(&self, ctx: &CompoundContext) -> (r: OpStep)
        ensures
            self.lookupp_step(*ctx, r),
    {
        match self.current_file(ctx) {
            Err(e) => pass_on(e),
            Ok(parent) => {
                proof {
                    reveal_strlit("..");
                    assert(".."@ =~= parent_name());
                }
                look_up(OpTask::Lookup, parent, String::from_str(".."))
            },
        }
    }

    /// The file was found: the request goes on there.
    pub open spec fn lookup_done_step(
        &self,
        ctx: CompoundContext,
        ctx2: CompoundContext,
        answer: Nfs4Result<FsAnswer>,
        step: OpStep,
    ) -> bool {
        match answer {
            Ok(FsAnswer::Found { fileid, .. }) => {
                &&& answers_with(step, Seq::empty())
                &&& ctx2.is_at(
                    ctx,
                    handle_of(self.fs.config.cluster_generation, fileid),
                )
            },
            _ => stops(answer, step) && ctx2 == ctx,
        }
    }

    /// The file was found: the request goes on there.
    pub fn lookup_done(
        &self,
        ctx: &mut CompoundContext,
        answer: Nfs4Result<FsAnswer>,
    ) -> (r: OpStep)
        ensures
            self.lookup_done_step(*old(ctx), *final(ctx), answer, r),
    {
        match answer {
            Ok(FsAnswer::Found { fileid, .. }) => {
                ctx.current_fh = Some(self.fs.fileid_to_fh(fileid));
                answer_with(Vec::new())
            },
            _ => stop(answer),
        }
    }

    /// Begins to read where a symbolic link leads.
    pub open spec fn readlink_step(
        &self,
        ctx: CompoundContext,
        step: OpStep,
    ) -> bool {
        match self.target(ctx) {
            Err(st) => gives_up(step, st),
            Ok(fileid) => step == (OpStep::Call {
                task: OpTask::Readlink,
                call: FsCall::Readlink { fileid },
            }),
        }
    }

    /// Begins to read where a symbolic link leads.
    pub fn op_readlink(&self, ctx: &CompoundContext) -> (r: OpStep)
        ensures
            self.readlink_step(*ctx, r),
    {
        match self.current_file(ctx) {
            Err(e) => pass_on(e),
            Ok(fileid) => OpStep::Call {
                task: OpTask::Readlink,
                call: FsCall::Readlink { fileid },
            },
        }
    }

    /// Where the symbolic link leads is known.
    pub open spec fn readlink_done_step(
        answer: Nfs4Result<FsAnswer>,
        step: OpStep,
    ) -> bool {
        match answer {
            Ok(FsAnswer::Target(t)) => if text_bytes(t@).len() < u32::MAX {
                answers_with(step, opaque(text_bytes(t@)))
            } else {
                gives_up(step, Nfs4Status::Io)
            },
            _ => stops(answer, step),
        }
    }

    /// Where the symbolic link leads is known.
    pub fn readlink_done(answer: Nfs4Result<FsAnswer>) -> (r: OpStep)
        ensures
            Self::readlink_done_step(answer, r),
    {
        match answer {
            Ok(FsAnswer::Target(t)) => {
                let b = t.as_str().as_bytes();
                if b.len() >= u32::MAX as usize {
                    return give_up(Nfs4Status::Io);
                }
                let mut out: Vec<u8> = Vec::new();
                put_opaque(&mut out, b);
                assert(out@ =~= opaque(text_bytes(t@)));
                answer_with(out)
            },
            _ => stop(answer),
        }
    }

    /// Begins to give a file another name: the saved one gets a name in the current directory.
    pub open spec fn link_step(
        &self,
        ctx: CompoundContext,
        name: Vec<u8>,
        step: OpStep,
    ) -> bool {
        match (
            target_of(self.fs.config.cluster_generation, ctx.saved_fh),
            self.target(ctx),
        ) {
            (Err(st), _) => gives_up(step, st),
            (_, Err(st)) => gives_up(step, st),
            (Ok(fileid), Ok(parent)) => {
                &&& step is Call
                &&& step->task == OpTask::Link
                &&& step->call is Link
                &&& step->call->Link_fileid == fileid
                &&& step->call->Link_parent == parent
                &&& step->call->Link_name@ == lossy_text(name@)
            },
        }
    }

    /// Begins to give a file another name: the saved one gets a name in the current directory.
    pub fn op_link(&self, ctx: &CompoundContext, name: Vec<u8>) -> (r: OpStep)
        ensures
            self.link_step(*ctx, name, r),
    {
        let fileid = match self.saved_file(ctx) {
            Err(e) => {
                return pass_on(e);
            },
            Ok(f) => f,
        };
        match self.current_file(ctx) {
            Err(e) => pass_on(e),
            Ok(parent) => OpStep::Call {
                task: OpTask::Link,
                call: FsCall::Link { fileid, parent, name: text_of(name.as_slice()) },
            },
        }
    }

    /// The file has another name.
    pub open spec fn link_done_step(
        answer: Nfs4Result<FsAnswer>,
        step: OpStep,
    ) -> bool {
        match answer {
            Ok(_) => answers_with(step, change_bytes(0, 1)),
            Err(_) => stops(answer, step),
        }
    }

    /// The file has another name.
    pub fn link_done(answer: Nfs4Result<FsAnswer>) -> (r: OpStep)
        ensures
            Self::link_done_step(answer, r),
    {
        if answer.is_err() {
            return stop(answer);
        }
        let mut out: Vec<u8> = Vec::new();
        put_change(&mut out, 0, 1);
        assert(out@ =~= change_bytes(0, 1));
        answer_with(out)
    }

    /// Begins to take a name out of a directory.
    pub open spec fn remove_step(
        &self,
        ctx: CompoundContext,
        name: Vec<u8>,
        step: OpStep,
    ) -> bool {
        if !is_name(text_bytes(lossy_text(name@))) {
            gives_up(step, Nfs4Status::Inval)
        } else {
            match self.target(ctx) {
                Err(st) => gives_up(step, st),
                Ok(parent) => {
                    &&& step is Call
                    &&& step->task is RemoveBefore
                    &&& step->task->RemoveBefore_parent == parent
                    &&& step->task->RemoveBefore_name@ == lossy_text(name@)
                    &&& step->call == (FsCall::Status { fileid: parent })
                },
            }
        }
    }

    /// Begins to take a name out of a directory.
    pub fn op_remove(&self, ctx: &CompoundContext, name: Vec<u8>) -> (r: OpStep)
        ensures
            self.remove_step(*ctx, name, r),
    {
        let name = text_of(name.as_slice());
        if let Err(e) = validate_filename(name.as_str()) {
            return pass_on(e);
        }
        match self.current_file(ctx) {
            Err(e) => pass_on(e),
            Ok(parent) => fetch(OpTask::RemoveBefore { parent, name }, parent),
        }
    }

    /// How the directory is before the name goes is known.
    pub open spec fn remove_before_step(
        parent: Fileid4,
        name: String,
        answer: Nfs4Result<FsAnswer>,
        step: OpStep,
    ) -> bool {
        match answer {
            Ok(FsAnswer::Status(s)) => step == (OpStep::Call {
                task: OpTask::Removing { parent, before: change_of(s) },
                call: FsCall::Remove { parent, name },
            }),
            _ => stops(answer, step),
        }
    }

    /// How the directory is before the name goes is known.
    pub fn remove_before(parent: Fileid4, name: String, answer: Nfs4Result<FsAnswer>) -> (r: OpStep)
        ensures
            Self::remove_before_step(parent, name, answer, r),
    {
        match answer {
            Ok(FsAnswer::Status(s)) => OpStep::Call {
                task: OpTask::Removing { parent, before: change_number(&s) },
                call: FsCall::Remove { parent, name },
            },
            _ => stop(answer),
        }
    }

    /// The name is gone.
    pub open spec fn removing_done_step(
        parent: Fileid4,
        before: u64,
        answer: Nfs4Result<FsAnswer>,
        step: OpStep,
    ) -> bool {
        match answer {
            Ok(_) => fetches(step, OpTask::Removed { before }, parent),
            Err(_) => stops(answer, step),
        }
    }

    /// The name is gone.
    pub fn removing_done(parent: Fileid4, before: u64, answer: Nfs4Result<FsAnswer>) -> (r: OpStep)
        ensures
            Self::removing_done_step(parent, before, answer, r),
    {
        if answer.is_err() {
            return stop(answer);
        }
        fetch(OpTask::Removed { before }, parent)
    }

    /// How the directory is now is known.
    pub open spec fn removed_step(
        before: u64,
        answer: Nfs4Result<FsAnswer>,
        step: OpStep,
    ) -> bool {
        match answer {
            Ok(FsAnswer::Status(s)) => answers_with(step, change_bytes(before, change_of(s))),
            _ => stops(answer, step),
        }
    }

    /// How the directory is now is known.
    pub fn removed(before: u64, answer: Nfs4Result<FsAnswer>) -> (r: OpStep)
        ensures
            Self::removed_step(before, answer, r),
    {
        match answer {
            Ok(FsAnswer::Status(s)) => {
                let mut out: Vec<u8> = Vec::new();
                let after: u64 = change_number(&s);
                put_change(&mut out, before, after);
                assert(out@ =~= change_bytes(before, after));
                answer_with(out)
            },
            _ => stop(answer),
        }
    }

    /// Begins to rename: from the saved directory to the current one.
    pub open spec fn rename_step(
        &self,
        ctx: CompoundContext,
        args: RenameArgs,
        step: OpStep,
    ) -> bool {
        if !is_name(text_bytes(lossy_text(args.oldname@))) || !is_name(
            text_bytes(lossy_text(args.newname@)),
        ) {
            gives_up(step, Nfs4Status::Inval)
        } else {
            match (
                target_of(self.fs.config.cluster_generation, ctx.saved_fh),
                self.target(ctx),
            ) {
                (Err(st), _) => gives_up(step, st),
                (_, Err(st)) => gives_up(step, st),
                (Ok(from), Ok(to)) => {
                    &&& step is Call
                    &&& step->task is RenameFrom
                    &&& step->task->RenameFrom_from == from
                    &&& step->task->RenameFrom_to == to
                    &&& step->task->RenameFrom_from_name@ == lossy_text(args.oldname@)
                    &&& step->task->RenameFrom_to_name@ == lossy_text(args.newname@)
                    &&& step->call == (FsCall::Status { fileid: from })
                },
            }
        }
    }

    /// Begins to rename: from the saved directory to the current one.
    pub fn op_rename(&self, ctx: &CompoundContext, args: RenameArgs) -> (r: OpStep)
        ensures
            self.rename_step(*ctx, args, r),
    {
        let from_name = text_of(args.oldname.as_slice());
        let to_name = text_of(args.newname.as_slice());
        if let Err(e) = validate_filename(from_name.as_str()) {
            return pass_on(e);
        }
        if let Err(e) = validate_filename(to_name.as_str()) {
            return pass_on(e);
        }
        let from = match self.saved_file(ctx) {
            Err(e) => {
                return pass_on(e);
            },
            Ok(f) => f,
        };
        match self.current_file(ctx) {
            Err(e) => pass_on(e),
            Ok(to) => fetch(OpTask::RenameFrom { from, from_name, to, to_name }, from),
        }
    }

    /// How the first directory is before is known.
    pub open spec fn rename_from_step(
        from: Fileid4,
        from_name: String,
        to: Fileid4,
        to_name: String,
        answer: Nfs4Result<FsAnswer>,
        step: OpStep,
    ) -> bool {
        match answer {
            Ok(FsAnswer::Status(s)) => fetches(
                step,
                OpTask::RenameTo { from, from_name, to, to_name, from_before: change_of(s) },
                to,
            ),
            _ => stops(answer, step),
        }
    }

    /// How the first directory is before is known.
    pub fn rename_from(
        from: Fileid4,
        from_name: String,
        to: Fileid4,
        to_name: String,
        answer: Nfs4Result<FsAnswer>,
    ) -> (r: OpStep)
        ensures
            Self::rename_from_step(from, from_name, to, to_name, answer, r),
    {
        match answer {
            Ok(FsAnswer::Status(s)) => fetch(
                OpTask::RenameTo { from, from_name, to, to_name, from_before: change_number(&s) },
                to,
            ),
            _ => stop(answer),
        }
    }

    /// How the second directory is before is known.
    pub open spec fn rename_to_step(
        from: Fileid4,
        from_name: String,
        to: Fileid4,
        to_name: String,
        from_before: u64,
        answer: Nfs4Result<FsAnswer>,
        step: OpStep,
    ) -> bool {
        match answer {
            Ok(FsAnswer::Status(s)) => step == (OpStep::Call {
                task: OpTask::Renaming { from, to, from_before, to_before: change_of(s) },
                call: FsCall::Rename { from, from_name, to, to_name },
            }),
            _ => stops(answer, step),
        }
    }

    /// How the second directory is before is known.
    pub fn rename_to(
        from: Fileid4,
        from_name: String,
        to: Fileid4,
        to_name: String,
        from_before: u64,
        answer: Nfs4Result<FsAnswer>,
    ) -> (r: OpStep)
        ensures
            Self::rename_to_step(from, from_name, to, to_name, from_before, answer, r),
    {
        match answer {
            Ok(FsAnswer::Status(s)) => OpStep::Call {
                task: OpTask::Renaming { from, to, from_before, to_before: change_number(&s) },
                call: FsCall::Rename { from, from_name, to, to_name },
            },
            _ => stop(answer),
        }
    }

    /// The file has its new name.
    pub open spec fn renaming_done_step(
        from: Fileid4,
        to: Fileid4,
        from_before: u64,
        to_before: u64,
        answer: Nfs4Result<FsAnswer>,
        step: OpStep,
    ) -> bool {
        match answer {
            Ok(_) => fetches(step, OpTask::RenamedFrom { to, from_before, to_before }, from),
            Err(_) => stops(answer, step),
        }
    }

    /// The file has its new name.
    pub fn renaming_done(
        from: Fileid4,
        to: Fileid4,
        from_before: u64,
        to_before: u64,
        answer: Nfs4Result<FsAnswer>,
    ) -> (r: OpStep)
        ensures
            Self::renaming_done_step(from, to, from_before, to_before, answer, r),
    {
        if answer.is_err() {
            return stop(answer);
        }
        fetch(OpTask::RenamedFrom { to, from_before, to_before }, from)
    }

    /// How the first directory is now is known.
    pub open spec fn renamed_from_step(
        to: Fileid4,
        from_before: u64,
        to_before: u64,
        answer: Nfs4Result<FsAnswer>,
        step: OpStep,
    ) -> bool {
        match answer {
            Ok(FsAnswer::Status(s)) => fetches(
                step,
                OpTask::RenamedTo { from_before, from_after: change_of(s), to_before },
                to,
            ),
            _ => stops(answer, step),
        }
    }

    /// How the first directory is now is known.
    pub fn renamed_from(
        to: Fileid4,
        from_before: u64,
        to_before: u64,
        answer: Nfs4Result<FsAnswer>,
    ) -> (r: OpStep)
        ensures
            Self::renamed_from_step(to, from_before, to_before, answer, r),
    {
        match answer {
            Ok(FsAnswer::Status(s)) => fetch(
                OpTask::RenamedTo { from_before, from_after: change_number(&s), to_before },
                to,
            ),
            _ => stop(answer),
        }
    }

    /// How both directories are now is known.
    pub open spec fn renamed_to_step(
        from_before: u64,
        from_after: u64,
        to_before: u64,
        answer: Nfs4Result<FsAnswer>,
        step: OpStep,
    ) -> bool {
        match answer {
            Ok(FsAnswer::Status(s)) => answers_with(
                step,
                change_bytes(from_before, from_after) + change_bytes(to_before, change_of(s)),
            ),
            _ => stops(answer, step),
        }
    }

    /// How both directories are now is known.
    pub fn renamed_to(
        from_before: u64,
        from_after: u64,
        to_before: u64,
        answer: Nfs4Result<FsAnswer>,
    ) -> (r: OpStep)
        ensures
            Self::renamed_to_step(from_before, from_after, to_before, answer, r),
    {
        match answer {
            Ok(FsAnswer::Status(s)) => {
                let mut out: Vec<u8> = Vec::new();
                let after: u64 = change_number(&s);
                put_change(&mut out, from_before, from_after);
                put_change(&mut out, to_before, after);
                assert(out@ =~= change_bytes(from_before, from_after) + change_bytes(
                    to_before,
                    after,
                ));
                answer_with(out)
            },
            _ => stop(answer),
        }
    }

    // -----------------------------------------------------------------------
    // Making changes last
    // -----------------------------------------------------------------------

    /// Begins to make changes of a file last.
    pub open spec fn commit_step(
        &self,
        ctx: CompoundContext,
        step: OpStep,
    ) -> bool {
        match self.target(ctx) {
            Err(st) => gives_up(step, st),
            Ok(fileid) => fetches(step, OpTask::CommitCheck { fileid }, fileid),
        }
    }

    /// Begins to make changes of a file last.
    pub fn op_commit(&self, ctx: &CompoundContext) -> (r: OpStep)
        ensures
            self.commit_step(*ctx, r),
    {
        match self.current_file(ctx) {
            Err(e) => pass_on(e),
            Ok(fileid) => fetch(OpTask::CommitCheck { fileid }, fileid),
        }
    }

    /// The kind of the file is known.
    pub open spec fn commit_check_step(
        fileid: Fileid4,
        answer: Nfs4Result<FsAnswer>,
        step: OpStep,
    ) -> bool {
        match answer {
            Ok(FsAnswer::Status(s)) => if s.file_type == FileType::File {
                step == (OpStep::Call {
                    task: OpTask::Committing,
                    call: FsCall::Commit { fileid },
                })
            } else {
                gives_up(step, Nfs4Status::Inval)
            },
            _ => stops(answer, step),
        }
    }

    /// The kind of the file is known.
    pub fn commit_check(fileid: Fileid4, answer: Nfs4Result<FsAnswer>) -> (r: OpStep)
        ensures
            Self::commit_check_step(fileid, answer, r),
    {
        match answer {
            Ok(FsAnswer::Status(s)) => {
                if s.file_type != FileType::File {
                    return give_up(Nfs4Status::Inval);
                }
                OpStep::Call { task: OpTask::Committing, call: FsCall::Commit { fileid } }
            },
            _ => stop(answer),
        }
    }

    /// The changes of the file last. By the moment the server was started a client sees whether it
    /// has to write again what did not last.
    pub open spec fn commit_done_step(
        &self,
        answer: Nfs4Result<FsAnswer>,
        step: OpStep,
    ) -> bool {
        match answer {
            Ok(_) => answers_with(step, le64(self.boot_time)),
            Err(_) => stops(answer, step),
        }
    }

    /// The changes of the file last. By the moment the server was started a client sees whether it
    /// has to write again what did not last.
    pub fn commit_done(&self, answer: Nfs4Result<FsAnswer>) -> (r: OpStep)
        ensures
            self.commit_done_step(answer, r),
    {
        if answer.is_err() {
            return stop(answer);
        }
        let mut out: Vec<u8> = Vec::new();
        put_le64(&mut out, self.boot_time);
        assert(out@ =~= le64(self.boot_time));
        answer_with(out)
    }
}

} // verus!
