//! Working with the storage behind the server.
//!
//! A call takes one or more requests to the storage. The storage is asked by the caller: each step
//! either names the next request, or says what the call has come to.

use crate::attrs::SetAttrs;
use crate::error::{fails_with, failure, FsErrorKind, Nfs4Result, Nfs4Status};
use crate::fs::{
    at_end, get_fileid_from_status, plan_read, reached_end, status_fileid, to_read, Nfs4FileSystem,
    OpenFile, Upgrade, ACCESS_READ, ACCESS_WRITE, ROOT_FILEID,
};
use crate::text::{
    build_child_path, child_path, is_dot, is_dot_dot, parent_bytes, parent_path, text_bytes,
};
use crate::types::{FileStatus, FileType, Fileid4};
use vstd::prelude::*;

verus! {

broadcast use vstd::std_specs::hash::group_hash_axioms;

/// What the storage is asked for.
#[derive(Debug)]
pub enum Request {
    /// The status of a file.
    Status { path: String },
    /// What is in a directory.
    List { path: String },
    /// To make an empty file.
    Create { path: String },
    /// To make a directory.
    MakeDir { path: String },
    /// To remove a file or a directory. What the file was read and written by is not needed any
    /// more.
    Delete { path: String, forget: Option<u64> },
    /// To give a file another path.
    Rename { from: String, to: String },
    /// To make a symbolic link.
    Symlink { target: String, path: String },
    /// To give a file one more path.
    Link { from: String, to: String },
    /// To open a file for reading; the reply is its length.
    OpenReader { handle: u64, path: String },
    /// To open a file for writing; the reply is its length.
    OpenWriter { handle: u64, path: String },
    /// The length of a file that is open for reading.
    ReaderLen { handle: u64 },
    /// Bytes of a file that is open for reading.
    ReadAt { handle: u64, offset: i64, count: u32 },
    /// How far a file that is open for writing was written.
    WriterPos { handle: u64 },
    /// To write bytes into a file that is open for writing, and to see to it that they last.
    WriteAt { handle: u64, offset: i64, data: Vec<u8>, sync: bool },
    /// To make a file that is open for writing longer.
    Extend { handle: u64, len: i64 },
    /// To cut a file that is open for writing, or make it longer.
    Resize { handle: u64, len: i64 },
    /// To see to it that what was written lasts.
    Flush { handle: u64 },
    /// To see to it that what was written lasts, and to close the file.
    Close { handle: u64 },
    /// The names of a user and of a group.
    Names { uid: Option<u32>, gid: Option<u32> },
    /// To set attributes.
    SetAttr { path: String, mode: Option<u32>, owner: Option<String>, group: Option<String> },
}

/// What the storage answers.
#[derive(Debug)]
pub enum Reply {
    Done,
    Status(FileStatus),
    Entries(Vec<FileStatus>),
    /// The length of a file.
    Length(i64),
    /// How far a file was written, if it is open for writing.
    Position(Option<i64>),
    Data(Vec<u8>),
    /// How many bytes were written, and whether they last.
    Written { count: u32, synced: bool },
    Names { owner: Option<String>, group: Option<String> },
    Failed(FsErrorKind),
}

/// What can be done with files.
#[derive(Debug)]
pub enum FsCall {
    Status { fileid: Fileid4 },
    Lookup { parent: Fileid4, name: String },
    Readdir { dir: Fileid4, cookie: u64, max_entries: usize },
    CreateFile { parent: Fileid4, name: String },
    Mkdir { parent: Fileid4, name: String },
    Remove { parent: Fileid4, name: String },
    Rename { from: Fileid4, from_name: String, to: Fileid4, to_name: String },
    Symlink { parent: Fileid4, name: String, target: String },
    Readlink { fileid: Fileid4 },
    Link { fileid: Fileid4, parent: Fileid4, name: String },
    Open { fileid: Fileid4, access: u32 },
    Reopen { fileid: Fileid4, access: u32, add_ref: bool },
    Close { fileid: Fileid4 },
    /// Reads a file that need not be open.
    Read { fileid: Fileid4, offset: u64, count: u32 },
    /// Writes a file that need not be open.
    Write { fileid: Fileid4, offset: u64, data: Vec<u8> },
    /// Reads an open file.
    ReadOpen { fileid: Fileid4, offset: u64, count: u32 },
    /// Writes an open file.
    WriteOpen { fileid: Fileid4, offset: u64, data: Vec<u8>, sync: bool },
    /// How far an open file was written.
    WriterPos { fileid: Fileid4 },
    /// Sees to it that what was written lasts.
    Commit { fileid: Fileid4 },
    Setattr { fileid: Fileid4, set: SetAttrs },
}

/// What a call comes to.
#[derive(Debug)]
pub enum FsAnswer {
    Done,
    Status(FileStatus),
    Found { fileid: Fileid4, status: FileStatus },
    Entries { entries: Vec<DirEntry>, end: bool },
    Target(String),
    Data { data: Vec<u8>, eof: bool },
    Written { count: u32, synced: bool },
    Position(Option<i64>),
}

/// Something in a directory.
#[derive(Debug)]
pub struct DirEntry {
    pub fileid: Fileid4,
    pub name: String,
    pub status: FileStatus,
}

/// What the status of a file is wanted for.
#[derive(Debug)]
pub enum StatusFor {
    /// It is what was asked for.
    Itself,
    /// The file was looked for.
    Lookup,
    /// What a symbolic link points to was asked for.
    Readlink,
    /// Attributes are to be set, and the length is among them.
    Setattr { path: String, set: SetAttrs },
}

/// A call that waits for an answer from the storage.
#[derive(Debug)]
pub enum FsTask {
    Status { fileid: Fileid4, purpose: StatusFor },
    StatusPos { fileid: Fileid4, status: FileStatus, purpose: StatusFor },
    Lookup { path: String },
    Readdir { path: String, cookie: u64, max_entries: usize },
    CreateCheck { parent: Fileid4, path: String },
    /// Something is being made.
    Making { parent: Fileid4, path: String },
    /// The status of what was made is being fetched.
    Made { parent: Fileid4, path: String },
    RemoveCheck { parent: Fileid4, path: String },
    Removing { parent: Fileid4 },
    RenameFrom { from: Fileid4, to: Fileid4, from_path: String, to_path: String },
    RenameTo { from: Fileid4, to: Fileid4, from_path: String, to_path: String, old_id: Fileid4 },
    Renaming { from: Fileid4, to: Fileid4, from_path: String, to_path: String, old_id: Fileid4 },
    Renamed { from: Fileid4, to: Fileid4, from_path: String, to_path: String, old_id: Fileid4 },
    Linking { fileid: Fileid4, parent: Fileid4, from_path: String, to_path: String },
    Linked { fileid: Fileid4, parent: Fileid4, to_path: String },
    OpenReader { fileid: Fileid4, path: String, handle: u64, access: u32 },
    OpenWriter { fileid: Fileid4, path: String, handle: u64, access: u32 },
    UpgradeReader { fileid: Fileid4, upgrade: Upgrade },
    UpgradeWriter { fileid: Fileid4, upgrade: Upgrade },
    Closing { fileid: Fileid4 },
    ReadLen { handle: u64, offset: u64, count: u32, close: bool },
    ReadData { handle: u64, offset: u64, count: u32, len: i64, close: bool },
    ReadClose { data: Vec<u8>, eof: bool },
    WriteLen { fileid: Fileid4, handle: u64, offset: u64, data: Vec<u8> },
    WriteExtend { fileid: Fileid4, handle: u64, offset: u64, data: Vec<u8> },
    WriteData { fileid: Fileid4, handle: u64, count: u32 },
    WriteClose { fileid: Fileid4, count: u32 },
    WriteOpen,
    WriterPos,
    Committing,
    SetOpenWriter { fileid: Fileid4, path: String, handle: u64, set: SetAttrs },
    SetResize { fileid: Fileid4, path: String, handle: u64, set: SetAttrs, close: bool },
    SetClose { fileid: Fileid4, path: String, set: SetAttrs },
    SetNames { fileid: Fileid4, path: String, mode: Option<u32> },
    Setting { fileid: Fileid4 },
}

/// How a call goes on.
#[derive(Debug)]
pub enum FsStep {
    /// The storage is to be asked.
    Ask { task: FsTask, request: Request },
    /// Another call takes the place of this one.
    Next { call: FsCall },
    /// The call is over.
    Done { result: Nfs4Result<FsAnswer> },
}

/// Whether the call is over with a failure of the given status.
pub open spec fn refused(r: FsStep, status: Nfs4Status) -> bool {
    r matches FsStep::Done { result } && fails_with(result, status)
}

/// Whether the call is over with the given answer.
pub open spec fn answered(r: FsStep, answer: FsAnswer) -> bool {
    r == FsStep::Done { result: Ok(answer) }
}

/// Whether the call goes on with a request.
pub open spec fn asked(r: FsStep, task: FsTask, request: Request) -> bool {
    r == FsStep::Ask { task, request }
}

fn refuse(status: Nfs4Status) -> (r: FsStep)
    ensures
        refused(r, status),
{
    FsStep::Done { result: failure(status) }
}

fn answer(a: FsAnswer) -> (r: FsStep)
    ensures
        answered(r, a),
{
    FsStep::Done { result: Ok(a) }
}

/// The status that a client is told of when the storage does not do what it was asked for. An
/// answer to something else counts as a fault of the server.
pub open spec fn failure_of(reply: Reply) -> Nfs4Status {
    match reply {
        Reply::Failed(kind) => kind.status_of(),
        _ => Nfs4Status::Serverfault,
    }
}

fn refuse_reply(reply: Reply) -> (r: FsStep)
    ensures
        refused(r, failure_of(reply)),
{
    match reply {
        Reply::Failed(kind) => refuse(Nfs4Status::from(kind)),
        _ => refuse(Nfs4Status::Serverfault),
    }
}

impl Nfs4FileSystem {
    /// `self` is `before`, but a handle was handed out.
    pub open spec fn only_handed_out(&self, before: &Self) -> bool {
        &&& self.same_config(before)
        &&& self.same_paths(before)
        &&& self.statuses() == before.statuses()
        &&& self.contents() == before.contents()
        &&& self.open_files@ == before.open_files@
        &&& self.next_handle == before.next_handle.wrapping_add(1)
    }

    /// The next handle.
    fn hand_out(&mut self) -> (r: u64)
        requires
            old(self).wf(),
        ensures
            final(self).wf(),
            r == old(self).next_handle,
            final(self).only_handed_out(old(self)),
    {
        let handle: u64 = self.next_handle;
        self.next_handle = handle.wrapping_add(1);
        handle
    }

    // -----------------------------------------------------------------------
    // Statuses
    // -----------------------------------------------------------------------

    /// What a call comes to once the status of the file is known.
    pub open spec fn has_status(
        &self,
        before: &Self,
        fileid: Fileid4,
        status: FileStatus,
        purpose: StatusFor,
        r: FsStep,
    ) -> bool {
        match purpose {
            StatusFor::Itself => self.unchanged(before) && answered(r, FsAnswer::Status(status)),
            StatusFor::Lookup => self.unchanged(before) && answered(
                r,
                FsAnswer::Found { fileid, status },
            ),
            StatusFor::Readlink => self.unchanged(before) && match status.target {
                Some(t) if status.file_type == FileType::Link => answered(r, FsAnswer::Target(t)),
                _ => refused(r, Nfs4Status::Inval),
            },
            StatusFor::Setattr { path, set } => self.has_begun_resize(
                before,
                fileid,
                status,
                path,
                set,
                r,
            ),
        }
    }

    /// What a call comes to whose file has the given status.
    pub fn with_status(
        &mut self,
        fileid: Fileid4,
        status: FileStatus,
        purpose: StatusFor,
    ) -> (r: FsStep)
        requires
            old(self).wf(),
        ensures
            final(self).wf(),
            final(self).has_status(old(self), fileid, status, purpose, r),
    {
        match purpose {
            StatusFor::Itself => answer(FsAnswer::Status(status)),
            StatusFor::Lookup => answer(FsAnswer::Found { fileid, status }),
            StatusFor::Readlink => {
                if status.file_type != FileType::Link {
                    return refuse(Nfs4Status::Inval);
                }
                match status.target {
                    Some(t) => answer(FsAnswer::Target(t)),
                    None => refuse(Nfs4Status::Inval),
                }
            },
            StatusFor::Setattr { path, set } => self.begin_resize(fileid, status, path, set),
        }
    }

    /// What asking for the status of a file comes to: it is remembered, or the storage is asked,
    /// or the path of the file is not remembered.
    pub open spec fn has_begun_status(
        &self,
        before: &Self,
        fileid: Fileid4,
        purpose: StatusFor,
        r: FsStep,
    ) -> bool {
        ||| before.statuses().contains_key(fileid) && self.has_status(
            before,
            fileid,
            before.statuses()[fileid],
            purpose,
            r,
        )
        ||| self.unchanged(before) && match r {
            FsStep::Ask { task, request: Request::Status { path } } => {
                &&& task == FsTask::Status { fileid, purpose }
                &&& before.path_cache.path_of(fileid) == Some(path@)
            },
            _ => refused(r, Nfs4Status::Stale) && fileid != ROOT_FILEID,
        }
    }

    /// What asking for a status that is not remembered comes to, with the path that was found for
    /// the file.
    pub fn status_at(fileid: Fileid4, found: Option<String>, purpose: StatusFor) -> (r: FsStep)
        ensures
            match found {
                Some(path) => asked(
                    r,
                    FsTask::Status { fileid, purpose },
                    Request::Status { path },
                ),
                None => refused(r, Nfs4Status::Stale),
            },
    {
        match found {
            Some(path) => FsStep::Ask {
                task: FsTask::Status { fileid, purpose },
                request: Request::Status { path },
            },
            None => refuse(Nfs4Status::Stale),
        }
    }

    /// The path of a file, if it is remembered.
    fn find_path(&self, fileid: Fileid4) -> (r: Option<String>)
        requires
            self.wf(),
        ensures
            r is Some ==> self.path_cache.path_of(fileid) == Some(r->Some_0@),
            r is None ==> fileid != ROOT_FILEID,
    {
        match self.get_path(fileid) {
            Ok(path) => Some(path),
            Err(_) => None,
        }
    }

    fn begin_status(&mut self, fileid: Fileid4, purpose: StatusFor) -> (r: FsStep)
        requires
            old(self).wf(),
        ensures
            final(self).wf(),
            final(self).has_begun_status(old(self), fileid, purpose, r),
    {
        if let Some(status) = self.remembered_status(fileid) {
            return self.with_status(fileid, status, purpose);
        }
        Self::status_at(fileid, self.find_path(fileid), purpose)
    }

    /// What the status of a file comes to that the storage gave: where the file is open for
    /// writing, the storage is asked how far it was written; otherwise the status is noted.
    pub open spec fn has_got_status(
        &self,
        before: &Self,
        fileid: Fileid4,
        purpose: StatusFor,
        reply: Reply,
        r: FsStep,
    ) -> bool {
        match reply {
            Reply::Status(status) => if before.open_files@.contains_key(fileid)
                && before.open_files@[fileid].writable {
                self.unchanged(before) && asked(
                    r,
                    FsTask::StatusPos { fileid, status, purpose },
                    Request::WriterPos { handle: before.open_files@[fileid].handle },
                )
            } else {
                self.has_noted_status(before, fileid, status, purpose, r)
            },
            _ => self.unchanged(before) && refused(r, failure_of(reply)),
        }
    }

    /// The status is noted, and the call goes on with it.
    pub open spec fn has_noted_status(
        &self,
        before: &Self,
        fileid: Fileid4,
        status: FileStatus,
        purpose: StatusFor,
        r: FsStep,
    ) -> bool {
        exists|mid: Nfs4FileSystem|
            #![trigger self.has_status(&mid, fileid, status, purpose, r)]
            {
                &&& mid.same_config(before)
                &&& mid.same_paths(before)
                &&& mid.same_files(before)
                &&& mid.contents() == before.contents()
                &&& mid.statuses() == before.noting(fileid, status)
                &&& self.has_status(&mid, fileid, status, purpose, r)
            }
    }

    fn got_status(&mut self, fileid: Fileid4, purpose: StatusFor, reply: Reply) -> (r: FsStep)
        requires
            old(self).wf(),
        ensures
            final(self).wf(),
            final(self).has_got_status(old(self), fileid, purpose, reply, r),
    {
        match reply {
            Reply::Status(status) => {
                if let Some(file) = self.get_open_file(fileid) {
                    if file.writable {
                        let handle: u64 = file.handle;
                        return FsStep::Ask {
                            task: FsTask::StatusPos { fileid, status, purpose },
                            request: Request::WriterPos { handle },
                        };
                    }
                }
                self.note_status(fileid, status.clone());
                let ghost mid = *self;
                let r = self.with_status(fileid, status, purpose);
                assert(self.has_status(&mid, fileid, status, purpose, r));
                r
            },
            _ => refuse_reply(reply),
        }
    }

    /// A status with the length that a file has while it is being written.
    pub open spec fn at_least(status: FileStatus, pos: i64) -> FileStatus {
        if pos > status.len {
            FileStatus { len: pos, ..status }
        } else {
            status
        }
    }

    /// What the status of a file comes to that is open for writing: the file is as long as it was
    /// written, at least, and the status is not noted. Where nothing is known of the writing, the
    /// status is taken as it is.
    pub open spec fn has_got_pos(
        &self,
        before: &Self,
        fileid: Fileid4,
        status: FileStatus,
        purpose: StatusFor,
        reply: Reply,
        r: FsStep,
    ) -> bool {
        match reply {
            Reply::Position(Some(pos)) => self.has_status(
                before,
                fileid,
                Self::at_least(status, pos),
                purpose,
                r,
            ),
            Reply::Position(None) => self.has_noted_status(before, fileid, status, purpose, r),
            _ => self.unchanged(before) && refused(r, failure_of(reply)),
        }
    }

    fn got_pos(
        &mut self,
        fileid: Fileid4,
        status: FileStatus,
        purpose: StatusFor,
        reply: Reply,
    ) -> (r: FsStep)
        requires
            old(self).wf(),
        ensures
            final(self).wf(),
            final(self).has_got_pos(old(self), fileid, status, purpose, reply, r),
    {
        match reply {
            Reply::Position(Some(pos)) => {
                let mut status = status;
                if pos > status.len {
                    status.len = pos;
                }
                self.with_status(fileid, status, purpose)
            },
            Reply::Position(None) => {
                self.note_status(fileid, status.clone());
                let ghost mid = *self;
                let r = self.with_status(fileid, status, purpose);
                assert(self.has_status(&mid, fileid, status, purpose, r));
                r
            },
            _ => refuse_reply(reply),
        }
    }

    /// Asks for the status of a file.
    pub fn get_status(&mut self, fileid: Fileid4) -> (r: FsStep)
        requires
            old(self).wf(),
        ensures
            final(self).wf(),
            final(self).has_begun_status(old(self), fileid, StatusFor::Itself, r),
    {
        self.begin_status(fileid, StatusFor::Itself)
    }

    /// Asks for the status of a file, by another name.
    pub fn get_status_cached(&mut self, fileid: Fileid4) -> (r: FsStep)
        requires
            old(self).wf(),
        ensures
            final(self).wf(),
            final(self).has_begun_status(old(self), fileid, StatusFor::Itself, r),
    {
        self.get_status(fileid)
    }

    /// Asks what a symbolic link points to.
    pub fn readlink(&mut self, fileid: Fileid4) -> (r: FsStep)
        requires
            old(self).wf(),
        ensures
            final(self).wf(),
            final(self).has_begun_status(old(self), fileid, StatusFor::Readlink, r),
    {
        self.begin_status(fileid, StatusFor::Readlink)
    }

    // -----------------------------------------------------------------------
    // Looking for files
    // -----------------------------------------------------------------------

    /// What looking for a name in a directory comes to. A name that is remembered takes no more
    /// than the status of the file.
    pub open spec fn has_begun_lookup(
        &self,
        before: &Self,
        parent: Fileid4,
        name: Seq<char>,
        r: FsStep,
    ) -> bool {
        let dir = before.path_cache.path_of(parent);
        ||| self.unchanged(before) && refused(r, Nfs4Status::Stale) && parent != ROOT_FILEID
        ||| dir is Some && if text_bytes(name) == seq![46u8] {
            self.has_begun_status(before, parent, StatusFor::Lookup, r)
        } else if text_bytes(name) == seq![46u8, 46u8] {
            &&& self.unchanged(before)
            &&& r matches FsStep::Ask { task, request: Request::Status { path } }
            &&& task matches FsTask::Lookup { path: p }
            &&& p@ == path@
            &&& text_bytes(path@) == parent_bytes(text_bytes(dir->Some_0))
        } else {
            let child = child_path(dir->Some_0, name);
            ||| before.path_cache.id_of(child) is Some && self.has_begun_status(
                before,
                before.path_cache.id_of(child)->Some_0,
                StatusFor::Lookup,
                r,
            )
            ||| {
                &&& self.unchanged(before)
                &&& r matches FsStep::Ask { task, request: Request::Status { path } }
                &&& task matches FsTask::Lookup { path: p }
                &&& p@ == child
                &&& path@ == child
            }
        }
    }

    /// What looking for a name comes to, with the path that was found for the directory and the
    /// number that was found for what is called so in it.
    pub open spec fn has_looked_in(
        &self,
        before: &Self,
        parent: Fileid4,
        found: Option<String>,
        name: Seq<char>,
        known: Option<Fileid4>,
        r: FsStep,
    ) -> bool {
        match found {
            None => self.unchanged(before) && refused(r, Nfs4Status::Stale),
            Some(dir) => if text_bytes(name) == seq![46u8] {
                self.has_begun_status(before, parent, StatusFor::Lookup, r)
            } else if text_bytes(name) == seq![46u8, 46u8] {
                &&& self.unchanged(before)
                &&& r matches FsStep::Ask { task, request: Request::Status { path } }
                &&& task == FsTask::Lookup { path }
                &&& text_bytes(path@) == parent_bytes(text_bytes(dir@))
            } else {
                match known {
                    Some(fileid) => self.has_begun_status(before, fileid, StatusFor::Lookup, r),
                    None => {
                        &&& self.unchanged(before)
                        &&& r matches FsStep::Ask { task, request: Request::Status { path } }
                        &&& task == FsTask::Lookup { path }
                        &&& path@ == child_path(dir@, name)
                    },
                }
            },
        }
    }

    /// Looks for a name in a directory whose path was found or not. What is called so may be known
    /// by its number.
    pub fn lookup_in(
        &mut self,
        parent: Fileid4,
        found: Option<String>,
        name: &str,
        known: Option<Fileid4>,
    ) -> (r: FsStep)
        requires
            old(self).wf(),
        ensures
            final(self).wf(),
            final(self).has_looked_in(old(self), parent, found, name@, known, r),
    {
        let dir = match found {
            Some(p) => p,
            None => {
                return refuse(Nfs4Status::Stale);
            },
        };
        if is_dot(name) {
            return self.begin_status(parent, StatusFor::Lookup);
        }
        if is_dot_dot(name) {
            assert(seq![46u8, 46u8].len() != seq![46u8].len());
            let path = parent_path(dir.as_str());
            return FsStep::Ask {
                task: FsTask::Lookup { path: path.clone() },
                request: Request::Status { path },
            };
        }
        if let Some(fileid) = known {
            return self.begin_status(fileid, StatusFor::Lookup);
        }
        let path = build_child_path(dir.as_str(), name);
        FsStep::Ask { task: FsTask::Lookup { path: path.clone() }, request: Request::Status { path } }
    }

    /// Looks for a name in a directory.
    pub fn lookup(&mut self, parent: Fileid4, name: &str) -> (r: FsStep)
        requires
            old(self).wf(),
        ensures
            final(self).wf(),
            final(self).has_begun_lookup(old(self), parent, name@, r),
    {
        let found = self.find_path(parent);
        let mut known: Option<Fileid4> = None;
        if let Some(dir) = &found {
            if !is_dot(name) && !is_dot_dot(name) {
                let path = build_child_path(dir.as_str(), name);
                known = self.path_cache.get_fileid(path.as_str());
            }
        }
        self.lookup_in(parent, found, name, known)
    }

    /// What the status of a file comes to that was looked for: the path and the status are noted.
    pub open spec fn has_got_lookup(
        &self,
        before: &Self,
        path: Seq<char>,
        reply: Reply,
        r: FsStep,
    ) -> bool {
        match reply {
            Reply::Status(status) => {
                let fileid = status_fileid(status, path);
                &&& self.has_noted_path(before, fileid, path)
                &&& self.statuses() == before.noting(fileid, status)
                &&& self.same_config(before)
                &&& self.same_files(before)
                &&& self.contents() == before.contents()
                &&& answered(r, FsAnswer::Found { fileid, status })
            },
            _ => self.unchanged(before) && refused(r, failure_of(reply)),
        }
    }

    fn got_lookup(&mut self, path: String, reply: Reply) -> (r: FsStep)
        requires
            old(self).wf(),
        ensures
            final(self).wf(),
            final(self).has_got_lookup(old(self), path@, reply, r),
    {
        match reply {
            Reply::Status(status) => {
                let fileid: u64 = get_fileid_from_status(&status, path.as_str());
                self.cache_path(fileid, path);
                self.note_status(fileid, status.clone());
                answer(FsAnswer::Found { fileid, status })
            },
            _ => refuse_reply(reply),
        }
    }

    // -----------------------------------------------------------------------
    // Making and removing files
    // -----------------------------------------------------------------------

    /// How a change in a directory begins: nothing is changed where nothing may be, or where the
    /// path of the directory is not remembered, and otherwise `goes_on` holds.
    pub open spec fn change_begins(&self, dir: Fileid4, r: FsStep, goes_on: bool) -> bool {
        if self.config.read_only {
            refused(r, Nfs4Status::Rofs)
        } else {
            ||| refused(r, Nfs4Status::Stale) && dir != ROOT_FILEID
            ||| self.path_cache.path_of(dir) is Some && goes_on
        }
    }

    /// How a change in a directory begins, with the path that was found for the directory.
    pub open spec fn change_in(&self, found: Option<String>, r: FsStep, goes_on: bool) -> bool {
        if self.config.read_only {
            refused(r, Nfs4Status::Rofs)
        } else if found is None {
            refused(r, Nfs4Status::Stale)
        } else {
            goes_on
        }
    }

    /// The path of what is called `name` in a directory that may be changed, with the path that was
    /// found for the directory.
    pub fn child_in(&self, found: Option<String>, name: &str) -> (r: Nfs4Result<String>)
        ensures
            if self.config.read_only {
                fails_with(r, Nfs4Status::Rofs)
            } else {
                match found {
                    None => fails_with(r, Nfs4Status::Stale),
                    Some(dir) => r is Ok && r->Ok_0@ == child_path(dir@, name@),
                }
            },
    {
        if self.config.read_only {
            return failure(Nfs4Status::Rofs);
        }
        match found {
            Some(dir) => Ok(build_child_path(dir.as_str(), name)),
            None => failure(Nfs4Status::Stale),
        }
    }

    /// The path of a directory that may be changed, if it is remembered.
    fn find_for_change(&self, dir: Fileid4) -> (r: Option<String>)
        requires
            self.wf(),
        ensures
            r is Some ==> self.path_cache.path_of(dir) == Some(r->Some_0@),
            r is None && !self.config.read_only ==> dir != ROOT_FILEID,
    {
        if self.config.read_only {
            None
        } else {
            self.find_path(dir)
        }
    }

    /// How making a file begins: the storage is asked whether it is there already.
    pub open spec fn has_begun_create(
        &self,
        before: &Self,
        parent: Fileid4,
        name: Seq<char>,
        r: FsStep,
    ) -> bool {
        let child = child_path(before.path_cache.path_of(parent)->Some_0, name);
        let goes_on = r matches FsStep::Ask { task, request: Request::Status { path } }
            && task matches FsTask::CreateCheck { parent: d, path: p }
            && d == parent
            && p@ == child
            && path@ == child;
        self.unchanged(before) && before.change_begins(parent, r, goes_on)
    }

    /// Makes a file in a directory, with the path that was found for it.
    pub fn create_file_in(&self, parent: Fileid4, found: Option<String>, name: &str) -> (r: FsStep)
        ensures
            self.change_in(
                found,
                r,
                (r matches FsStep::Ask { task, request: Request::Status { path } }
                    && task == (FsTask::CreateCheck { parent, path })
                    && path@ == child_path(found->Some_0@, name@)),
            ),
    {
        match self.child_in(found, name) {
            Ok(path) => FsStep::Ask {
                task: FsTask::CreateCheck { parent, path: path.clone() },
                request: Request::Status { path },
            },
            Err(e) => FsStep::Done { result: Err(e) },
        }
    }

    /// Makes a file.
    pub fn create_file(&mut self, parent: Fileid4, name: &str) -> (r: FsStep)
        requires
            old(self).wf(),
        ensures
            final(self).wf(),
            final(self).has_begun_create(old(self), parent, name@, r),
    {
        let found = self.find_for_change(parent);
        self.create_file_in(parent, found, name)
    }

    /// A file that is there already is not made again.
    pub open spec fn has_checked_create(
        &self,
        before: &Self,
        parent: Fileid4,
        path: String,
        reply: Reply,
        r: FsStep,
    ) -> bool {
        self.unchanged(before) && match reply {
            Reply::Status(_) => refused(r, Nfs4Status::Exist),
            _ => asked(r, FsTask::Making { parent, path }, Request::Create { path }),
        }
    }

    fn checked_create(&mut self, parent: Fileid4, path: String, reply: Reply) -> (r: FsStep)
        requires
            old(self).wf(),
        ensures
            final(self).wf(),
            final(self).has_checked_create(old(self), parent, path, reply, r),
    {
        match reply {
            Reply::Status(_) => refuse(Nfs4Status::Exist),
            _ => FsStep::Ask {
                task: FsTask::Making { parent, path: path.clone() },
                request: Request::Create { path },
            },
        }
    }

    /// How making a directory begins.
    pub open spec fn has_begun_mkdir(
        &self,
        before: &Self,
        parent: Fileid4,
        name: Seq<char>,
        r: FsStep,
    ) -> bool {
        let child = child_path(before.path_cache.path_of(parent)->Some_0, name);
        let goes_on = r matches FsStep::Ask { task, request: Request::MakeDir { path } }
            && task matches FsTask::Making { parent: d, path: p }
            && d == parent
            && p@ == child
            && path@ == child;
        self.unchanged(before) && before.change_begins(parent, r, goes_on)
    }

    /// Makes a directory in a directory, with the path that was found for it.
    pub fn mkdir_in(&self, parent: Fileid4, found: Option<String>, name: &str) -> (r: FsStep)
        ensures
            self.change_in(
                found,
                r,
                (r matches FsStep::Ask { task, request: Request::MakeDir { path } }
                    && task == (FsTask::Making { parent, path })
                    && path@ == child_path(found->Some_0@, name@)),
            ),
    {
        match self.child_in(found, name) {
            Ok(path) => FsStep::Ask {
                task: FsTask::Making { parent, path: path.clone() },
                request: Request::MakeDir { path },
            },
            Err(e) => FsStep::Done { result: Err(e) },
        }
    }

    /// Makes a directory.
    pub fn mkdir(&mut self, parent: Fileid4, name: &str) -> (r: FsStep)
        requires
            old(self).wf(),
        ensures
            final(self).wf(),
            final(self).has_begun_mkdir(old(self), parent, name@, r),
    {
        let found = self.find_for_change(parent);
        self.mkdir_in(parent, found, name)
    }

    /// How making a symbolic link begins.
    pub open spec fn has_begun_symlink(
        &self,
        before: &Self,
        parent: Fileid4,
        name: Seq<char>,
        target: Seq<char>,
        r: FsStep,
    ) -> bool {
        let child = child_path(before.path_cache.path_of(parent)->Some_0, name);
        let goes_on = r matches FsStep::Ask { task, request: Request::Symlink { target: t, path } }
            && task matches FsTask::Making { parent: d, path: p }
            && d == parent
            && p@ == child
            && path@ == child
            && t@ == target;
        self.unchanged(before) && before.change_begins(parent, r, goes_on)
    }

    /// Makes a symbolic link in a directory, with the path that was found for it.
    pub fn symlink_in(
        &self,
        parent: Fileid4,
        found: Option<String>,
        name: &str,
        target: &str,
    ) -> (r: FsStep)
        ensures
            self.change_in(
                found,
                r,
                (r matches FsStep::Ask { task, request: Request::Symlink { target: t, path } }
                    && task == (FsTask::Making { parent, path })
                    && path@ == child_path(found->Some_0@, name@) && t@ == target@),
            ),
    {
        match self.child_in(found, name) {
            Ok(path) => FsStep::Ask {
                task: FsTask::Making { parent, path: path.clone() },
                request: Request::Symlink { target: target.to_owned(), path },
            },
            Err(e) => FsStep::Done { result: Err(e) },
        }
    }

    /// Makes a symbolic link.
    pub fn symlink(&mut self, parent: Fileid4, name: &str, target: &str) -> (r: FsStep)
        requires
            old(self).wf(),
        ensures
            final(self).wf(),
            final(self).has_begun_symlink(old(self), parent, name@, target@, r),
    {
        let found = self.find_for_change(parent);
        self.symlink_in(parent, found, name, target)
    }

    /// Once something was made, the storage is asked for its status.
    pub open spec fn has_made(
        &self,
        before: &Self,
        parent: Fileid4,
        path: String,
        reply: Reply,
        r: FsStep,
    ) -> bool {
        self.unchanged(before) && match reply {
            Reply::Done => asked(r, FsTask::Made { parent, path }, Request::Status { path }),
            _ => refused(r, failure_of(reply)),
        }
    }

    fn made(&mut self, parent: Fileid4, path: String, reply: Reply) -> (r: FsStep)
        requires
            old(self).wf(),
        ensures
            final(self).wf(),
            final(self).has_made(old(self), parent, path, reply, r),
    {
        match reply {
            Reply::Done => FsStep::Ask {
                task: FsTask::Made { parent, path: path.clone() },
                request: Request::Status { path },
            },
            _ => refuse_reply(reply),
        }
    }

    /// What was made is noted under its path, and the status of the directory is forgotten.
    pub open spec fn has_got_made(
        &self,
        before: &Self,
        parent: Fileid4,
        path: Seq<char>,
        reply: Reply,
        r: FsStep,
    ) -> bool {
        match reply {
            Reply::Status(status) => {
                let fileid = status_fileid(status, path);
                &&& self.has_noted_path(before, fileid, path)
                &&& self.statuses() == before.statuses().remove(parent)
                &&& self.same_config(before)
                &&& self.same_files(before)
                &&& self.contents() == before.contents()
                &&& answered(r, FsAnswer::Found { fileid, status })
            },
            _ => self.unchanged(before) && refused(r, failure_of(reply)),
        }
    }

    fn got_made(&mut self, parent: Fileid4, path: String, reply: Reply) -> (r: FsStep)
        requires
            old(self).wf(),
        ensures
            final(self).wf(),
            final(self).has_got_made(old(self), parent, path@, reply, r),
    {
        match reply {
            Reply::Status(status) => {
                let fileid: u64 = get_fileid_from_status(&status, path.as_str());
                self.cache_path(fileid, path);
                self.invalidate_status_cache(parent);
                answer(FsAnswer::Found { fileid, status })
            },
            _ => refuse_reply(reply),
        }
    }

    /// How removing something begins: the storage is asked which file it is.
    pub open spec fn has_begun_remove(
        &self,
        before: &Self,
        parent: Fileid4,
        name: Seq<char>,
        r: FsStep,
    ) -> bool {
        let child = child_path(before.path_cache.path_of(parent)->Some_0, name);
        let goes_on = r matches FsStep::Ask { task, request: Request::Status { path } }
            && task matches FsTask::RemoveCheck { parent: d, path: p }
            && d == parent
            && p@ == child
            && path@ == child;
        self.unchanged(before) && before.change_begins(parent, r, goes_on)
    }

    /// Removes what is called so in a directory, with the path that was found for it.
    pub fn remove_in(&self, parent: Fileid4, found: Option<String>, name: &str) -> (r: FsStep)
        ensures
            self.change_in(
                found,
                r,
                (r matches FsStep::Ask { task, request: Request::Status { path } }
                    && task == (FsTask::RemoveCheck { parent, path })
                    && path@ == child_path(found->Some_0@, name@)),
            ),
    {
        match self.child_in(found, name) {
            Ok(path) => FsStep::Ask {
                task: FsTask::RemoveCheck { parent, path: path.clone() },
                request: Request::Status { path },
            },
            Err(e) => FsStep::Done { result: Err(e) },
        }
    }

    /// Removes something from a directory.
    pub fn remove(&mut self, parent: Fileid4, name: &str) -> (r: FsStep)
        requires
            old(self).wf(),
        ensures
            final(self).wf(),
            final(self).has_begun_remove(old(self), parent, name@, r),
    {
        let found = self.find_for_change(parent);
        self.remove_in(parent, found, name)
    }

    /// What is to be removed is forgotten, and is not open any more; the storage is asked to
    /// remove it, also where it does not know which file it is.
    pub open spec fn has_checked_remove(
        &self,
        before: &Self,
        parent: Fileid4,
        path: String,
        reply: Reply,
        r: FsStep,
    ) -> bool {
        match reply {
            Reply::Status(status) => {
                let fileid = status_fileid(status, path@);
                &&& self.same_config(before)
                &&& self.contents() == before.contents()
                &&& self.path_cache.root_id == before.path_cache.root_id
                &&& self.path_cache.paths() == before.path_cache.paths().remove(fileid)
                &&& self.path_cache.ids() == before.path_cache.ids()
                    || before.path_cache.paths().contains_key(fileid) && self.path_cache.ids()
                    == before.path_cache.ids().remove(before.path_cache.paths()[fileid])
                &&& self.statuses() == before.statuses().remove(fileid)
                &&& self.open_files@ == before.open_files@.remove(fileid)
                &&& self.next_handle == before.next_handle
                &&& asked(
                    r,
                    FsTask::Removing { parent },
                    Request::Delete {
                        path,
                        forget: if before.open_files@.contains_key(fileid) {
                            Some(before.open_files@[fileid].handle)
                        } else {
                            None
                        },
                    },
                )
            },
            _ => self.unchanged(before) && asked(
                r,
                FsTask::Removing { parent },
                Request::Delete { path, forget: None },
            ),
        }
    }

    fn checked_remove(&mut self, parent: Fileid4, path: String, reply: Reply) -> (r: FsStep)
        requires
            old(self).wf(),
        ensures
            final(self).wf(),
            final(self).has_checked_remove(old(self), parent, path, reply, r),
    {
        let mut forget: Option<u64> = None;
        if let Reply::Status(status) = reply {
            let fileid: u64 = get_fileid_from_status(&status, path.as_str());
            self.path_cache.remove(fileid);
            self.invalidate_status_cache(fileid);
            if let Some(file) = self.open_files.remove(&fileid) {
                forget = Some(file.handle);
            }
            assert(self.open_files@ =~= old(self).open_files@.remove(fileid));
        }
        FsStep::Ask { task: FsTask::Removing { parent }, request: Request::Delete { path, forget } }
    }

    /// Once something was removed, the status of the directory is forgotten.
    pub open spec fn has_removed(
        &self,
        before: &Self,
        parent: Fileid4,
        reply: Reply,
        r: FsStep,
    ) -> bool {
        match reply {
            Reply::Done => {
                &&& self.same_config(before)
                &&& self.same_paths(before)
                &&& self.same_files(before)
                &&& self.contents() == before.contents()
                &&& self.statuses() == before.statuses().remove(parent)
                &&& answered(r, FsAnswer::Done)
            },
            _ => self.unchanged(before) && refused(r, failure_of(reply)),
        }
    }

    fn removed(&mut self, parent: Fileid4, reply: Reply) -> (r: FsStep)
        requires
            old(self).wf(),
        ensures
            final(self).wf(),
            final(self).has_removed(old(self), parent, reply, r),
    {
        match reply {
            Reply::Done => {
                self.invalidate_status_cache(parent);
                answer(FsAnswer::Done)
            },
            _ => refuse_reply(reply),
        }
    }

    // -----------------------------------------------------------------------
    // Giving files other paths
    // -----------------------------------------------------------------------

    /// How giving a file another path begins: the storage is asked which file it is.
    pub open spec fn has_begun_rename(
        &self,
        before: &Self,
        from: Fileid4,
        from_name: Seq<char>,
        to: Fileid4,
        to_name: Seq<char>,
        r: FsStep,
    ) -> bool {
        let source = child_path(before.path_cache.path_of(from)->Some_0, from_name);
        let target = child_path(before.path_cache.path_of(to)->Some_0, to_name);
        let goes_on = before.path_cache.path_of(to) is Some && (r matches FsStep::Ask {
            task,
            request: Request::Status { path },
        } && task matches FsTask::RenameFrom { from: f, to: t, from_path, to_path } && f == from && t
            == to && from_path@ == source && to_path@ == target && path@ == source);
        let stale = refused(r, Nfs4Status::Stale) && to != ROOT_FILEID;
        self.unchanged(before) && before.change_begins(from, r, stale || goes_on)
    }

    /// Moves what is called `from_name` in a directory to `to_name` in another, with the paths that
    /// were found for the directories.
    pub fn rename_in(
        &self,
        from: Fileid4,
        found_from: Option<String>,
        from_name: &str,
        to: Fileid4,
        found_to: Option<String>,
        to_name: &str,
    ) -> (r: FsStep)
        ensures
            self.change_in(
                found_from,
                r,
                self.change_in(
                    found_to,
                    r,
                    (r matches FsStep::Ask { task, request: Request::Status { path } }
                        && task matches FsTask::RenameFrom { from: f, to: t, from_path, to_path }
                        && f == from && t == to && from_path == path && path@ == child_path(
                        found_from->Some_0@,
                        from_name@,
                    ) && to_path@ == child_path(found_to->Some_0@, to_name@)),
                ),
            ),
    {
        let from_path = match self.child_in(found_from, from_name) {
            Ok(p) => p,
            Err(e) => {
                return FsStep::Done { result: Err(e) };
            },
        };
        let to_path = match self.child_in(found_to, to_name) {
            Ok(p) => p,
            Err(e) => {
                return FsStep::Done { result: Err(e) };
            },
        };
        FsStep::Ask {
            task: FsTask::RenameFrom { from, to, from_path: from_path.clone(), to_path },
            request: Request::Status { path: from_path },
        }
    }

    /// Gives a file another path.
    pub fn rename(&mut self, from: Fileid4, from_name: &str, to: Fileid4, to_name: &str) -> (r:
        FsStep)
        requires
            old(self).wf(),
        ensures
            final(self).wf(),
            final(self).has_begun_rename(old(self), from, from_name@, to, to_name@, r),
    {
        let found_from = self.find_for_change(from);
        let found_to = self.find_for_change(to);
        self.rename_in(from, found_from, from_name, to, found_to, to_name)
    }

    /// The storage is asked whether the new path is taken.
    pub open spec fn has_got_source(
        &self,
        before: &Self,
        from: Fileid4,
        to: Fileid4,
        from_path: String,
        to_path: String,
        reply: Reply,
        r: FsStep,
    ) -> bool {
        self.unchanged(before) && match reply {
            Reply::Status(status) => asked(
                r,
                FsTask::RenameTo {
                    from,
                    to,
                    from_path,
                    to_path,
                    old_id: status_fileid(status, from_path@),
                },
                Request::Status { path: to_path },
            ),
            _ => refused(r, failure_of(reply)),
        }
    }

    fn got_source(
        &mut self,
        from: Fileid4,
        to: Fileid4,
        from_path: String,
        to_path: String,
        reply: Reply,
    ) -> (r: FsStep)
        requires
            old(self).wf(),
        ensures
            final(self).wf(),
            final(self).has_got_source(old(self), from, to, from_path, to_path, reply, r),
    {
        match reply {
            Reply::Status(status) => {
                let old_id: u64 = get_fileid_from_status(&status, from_path.as_str());
                FsStep::Ask {
                    task: FsTask::RenameTo { from, to, from_path, to_path: to_path.clone(), old_id },
                    request: Request::Status { path: to_path },
                }
            },
            _ => refuse_reply(reply),
        }
    }

    /// What has the new path is forgotten, and the storage is asked to give the file that path.
    pub open spec fn has_got_target(
        &self,
        before: &Self,
        from: Fileid4,
        to: Fileid4,
        from_path: String,
        to_path: String,
        old_id: Fileid4,
        reply: Reply,
        r: FsStep,
    ) -> bool {
        &&& self.same_config(before)
        &&& self.same_files(before)
        &&& self.statuses() == before.statuses()
        &&& self.contents() == before.contents()
        &&& self.path_cache.root_id == before.path_cache.root_id
        &&& if reply is Status {
            &&& self.path_cache.ids() == before.path_cache.ids().remove(to_path@)
            &&& self.path_cache.paths() == before.path_cache.paths()
                || before.path_cache.ids().contains_key(to_path@) && self.path_cache.paths()
                == before.path_cache.paths().remove(before.path_cache.ids()[to_path@])
        } else {
            self.same_paths(before)
        }
        &&& asked(
            r,
            FsTask::Renaming { from, to, from_path, to_path, old_id },
            Request::Rename { from: from_path, to: to_path },
        )
    }

    fn got_target(
        &mut self,
        from: Fileid4,
        to: Fileid4,
        from_path: String,
        to_path: String,
        old_id: Fileid4,
        reply: Reply,
    ) -> (r: FsStep)
        requires
            old(self).wf(),
        ensures
            final(self).wf(),
            final(self).has_got_target(old(self), from, to, from_path, to_path, old_id, reply, r),
    {
        if let Reply::Status(_) = reply {
            self.path_cache.remove_by_path(to_path.as_str());
        }
        FsStep::Ask {
            task: FsTask::Renaming {
                from,
                to,
                from_path: from_path.clone(),
                to_path: to_path.clone(),
                old_id,
            },
            request: Request::Rename { from: from_path, to: to_path },
        }
    }

    /// Once the file has the new path, the storage is asked which file it is now.
    pub open spec fn has_moved(
        &self,
        before: &Self,
        from: Fileid4,
        to: Fileid4,
        from_path: String,
        to_path: String,
        old_id: Fileid4,
        reply: Reply,
        r: FsStep,
    ) -> bool {
        self.unchanged(before) && match reply {
            Reply::Done => asked(
                r,
                FsTask::Renamed { from, to, from_path, to_path, old_id },
                Request::Status { path: to_path },
            ),
            _ => refused(r, failure_of(reply)),
        }
    }

    fn moved(
        &mut self,
        from: Fileid4,
        to: Fileid4,
        from_path: String,
        to_path: String,
        old_id: Fileid4,
        reply: Reply,
    ) -> (r: FsStep)
        requires
            old(self).wf(),
        ensures
            final(self).wf(),
            final(self).has_moved(old(self), from, to, from_path, to_path, old_id, reply, r),
    {
        match reply {
            Reply::Done => FsStep::Ask {
                task: FsTask::Renamed { from, to, from_path, to_path: to_path.clone(), old_id },
                request: Request::Status { path: to_path },
            },
            _ => refuse_reply(reply),
        }
    }

    /// The open files after a file has got another number.
    pub open spec fn renumbered(files: Map<u64, OpenFile>, old_id: u64, new_id: u64) -> Map<
        u64,
        OpenFile,
    > {
        if old_id != new_id && files.contains_key(old_id) {
            files.remove(old_id).insert(new_id, files[old_id])
        } else {
            files
        }
    }

    /// The new path is noted, what was known of the file and of the two directories is forgotten,
    /// and where the file is open it stays so under its new number.
    pub open spec fn has_got_moved(
        &self,
        before: &Self,
        from: Fileid4,
        to: Fileid4,
        from_path: Seq<char>,
        to_path: Seq<char>,
        old_id: Fileid4,
        reply: Reply,
        r: FsStep,
    ) -> bool {
        match reply {
            Reply::Status(status) => {
                let new_id = status_fileid(status, to_path);
                &&& self.same_config(before)
                &&& self.contents() == before.contents()
                &&& self.path_cache.has_renamed(
                    &before.path_cache,
                    old_id,
                    from_path,
                    to_path,
                    new_id,
                )
                &&& self.statuses() == before.statuses().remove(old_id).remove(new_id).remove(
                    from,
                ).remove(to)
                &&& self.open_files@ == Self::renumbered(before.open_files@, old_id, new_id)
                &&& self.next_handle == before.next_handle
                &&& answered(r, FsAnswer::Done)
            },
            _ => self.unchanged(before) && refused(r, failure_of(reply)),
        }
    }

    fn got_moved(
        &mut self,
        from: Fileid4,
        to: Fileid4,
        from_path: String,
        to_path: String,
        old_id: Fileid4,
        reply: Reply,
    ) -> (r: FsStep)
        requires
            old(self).wf(),
        ensures
            final(self).wf(),
            final(self).has_got_moved(old(self), from, to, from_path@, to_path@, old_id, reply, r),
    {
        match reply {
            Reply::Status(status) => {
                let new_id: u64 = get_fileid_from_status(&status, to_path.as_str());
                self.path_cache.rename(old_id, from_path.as_str(), to_path.as_str(), new_id);
                self.invalidate_status_cache(old_id);
                if old_id != new_id {
                    self.invalidate_status_cache(new_id);
                }
                self.invalidate_status_cache(from);
                self.invalidate_status_cache(to);
                assert(self.statuses() =~= old(self).statuses().remove(old_id).remove(
                    new_id,
                ).remove(from).remove(to));
                if old_id != new_id {
                    if let Some(file) = self.open_files.remove(&old_id) {
                        self.open_files.insert(new_id, file);
                    }
                }
                assert(self.open_files@ =~= Self::renumbered(
                    old(self).open_files@,
                    old_id,
                    new_id,
                ));
                answer(FsAnswer::Done)
            },
            _ => refuse_reply(reply),
        }
    }

    /// How giving a file one more path begins.
    pub open spec fn has_begun_link(
        &self,
        before: &Self,
        fileid: Fileid4,
        parent: Fileid4,
        name: Seq<char>,
        r: FsStep,
    ) -> bool {
        let target = child_path(before.path_cache.path_of(parent)->Some_0, name);
        let goes_on = before.path_cache.path_of(parent) is Some && (r matches FsStep::Ask {
            task,
            request: Request::Link { from, to },
        } && task matches FsTask::Linking { fileid: f, parent: d, from_path, to_path } && f == fileid
            && d == parent && before.path_cache.path_of(fileid) == Some(from_path@) && to_path@
            == target && from@ == from_path@ && to@ == target);
        let stale = refused(r, Nfs4Status::Stale) && parent != ROOT_FILEID;
        self.unchanged(before) && before.change_begins(fileid, r, stale || goes_on)
    }

    /// Gives a file another name in a directory, with the paths that were found for both.
    pub fn link_in(
        &self,
        fileid: Fileid4,
        found: Option<String>,
        parent: Fileid4,
        found_parent: Option<String>,
        name: &str,
    ) -> (r: FsStep)
        ensures
            self.change_in(
                found,
                r,
                self.change_in(
                    found_parent,
                    r,
                    (r matches FsStep::Ask { task, request: Request::Link { from, to } }
                        && task == (FsTask::Linking {
                        fileid,
                        parent,
                        from_path: from,
                        to_path: to,
                    }) && Some(from) == found && to@ == child_path(
                        found_parent->Some_0@,
                        name@,
                    )),
                ),
            ),
    {
        if self.config.read_only {
            return refuse(Nfs4Status::Rofs);
        }
        let from = match found {
            Some(p) => p,
            None => {
                return refuse(Nfs4Status::Stale);
            },
        };
        let to = match self.child_in(found_parent, name) {
            Ok(p) => p,
            Err(e) => {
                return FsStep::Done { result: Err(e) };
            },
        };
        FsStep::Ask {
            task: FsTask::Linking {
                fileid,
                parent,
                from_path: from.clone(),
                to_path: to.clone(),
            },
            request: Request::Link { from, to },
        }
    }

    /// Gives a file one more path.
    pub fn link(&mut self, fileid: Fileid4, parent: Fileid4, name: &str) -> (r: FsStep)
        requires
            old(self).wf(),
        ensures
            final(self).wf(),
            final(self).has_begun_link(old(self), fileid, parent, name@, r),
    {
        let found = self.find_for_change(fileid);
        let found_parent = self.find_for_change(parent);
        self.link_in(fileid, found, parent, found_parent, name)
    }

    /// Once the file has one more path, the storage is asked for its status.
    pub open spec fn has_linked(
        &self,
        before: &Self,
        fileid: Fileid4,
        parent: Fileid4,
        from_path: String,
        to_path: String,
        reply: Reply,
        r: FsStep,
    ) -> bool {
        self.unchanged(before) && match reply {
            Reply::Done => asked(
                r,
                FsTask::Linked { fileid, parent, to_path },
                Request::Status { path: from_path },
            ),
            _ => refused(r, failure_of(reply)),
        }
    }

    fn linked(
        &mut self,
        fileid: Fileid4,
        parent: Fileid4,
        from_path: String,
        to_path: String,
        reply: Reply,
    ) -> (r: FsStep)
        requires
            old(self).wf(),
        ensures
            final(self).wf(),
            final(self).has_linked(old(self), fileid, parent, from_path, to_path, reply, r),
    {
        match reply {
            Reply::Done => FsStep::Ask {
                task: FsTask::Linked { fileid, parent, to_path },
                request: Request::Status { path: from_path },
            },
            _ => refuse_reply(reply),
        }
    }

    /// The new path is noted under the number that the storage gives the file, and what was known
    /// of the file and of the directory is forgotten.
    pub open spec fn has_got_linked(
        &self,
        before: &Self,
        fileid: Fileid4,
        parent: Fileid4,
        to_path: Seq<char>,
        reply: Reply,
        r: FsStep,
    ) -> bool {
        match reply {
            Reply::Status(status) => {
                &&& self.has_noted_path(before, status.id as u64, to_path)
                &&& self.same_config(before)
                &&& self.same_files(before)
                &&& self.contents() == before.contents()
                &&& self.statuses() == before.statuses().remove(parent).remove(fileid)
                &&& answered(r, FsAnswer::Status(status))
            },
            _ => self.unchanged(before) && refused(r, failure_of(reply)),
        }
    }

    fn got_linked(&mut self, fileid: Fileid4, parent: Fileid4, to_path: String, reply: Reply) -> (r:
        FsStep)
        requires
            old(self).wf(),
        ensures
            final(self).wf(),
            final(self).has_got_linked(old(self), fileid, parent, to_path@, reply, r),
    {
        match reply {
            Reply::Status(status) => {
                self.cache_path(#[verifier::truncate] (status.id as u64), to_path);
                self.invalidate_status_cache(parent);
                self.invalidate_status_cache(fileid);
                answer(FsAnswer::Status(status))
            },
            _ => refuse_reply(reply),
        }
    }
}

impl Nfs4FileSystem {
    // -----------------------------------------------------------------------
    // Opening and closing files
    // -----------------------------------------------------------------------

    /// `self` is `before`, but the open files are as given.
    pub open spec fn only_files(&self, before: &Self, files: Map<u64, OpenFile>) -> bool {
        &&& self.same_config(before)
        &&& self.same_paths(before)
        &&& self.statuses() == before.statuses()
        &&& self.contents() == before.contents()
        &&& self.open_files@ == files
        &&& self.next_handle == before.next_handle
    }

    /// Whether what an open file allows is enough for `access`, or what is opened for it: first for
    /// reading, then for writing.
    pub open spec fn upgrading(file: OpenFile, fileid: Fileid4, access: u32, r: FsStep) -> bool {
        let up = OpenFile::missing_for(file.access, access);
        if up.combined == file.access {
            answered(r, FsAnswer::Done)
        } else if up.reader {
            asked(
                r,
                FsTask::UpgradeReader { fileid, upgrade: up },
                Request::OpenReader { handle: file.handle, path: file.path },
            )
        } else if up.writer {
            asked(
                r,
                FsTask::UpgradeWriter { fileid, upgrade: up },
                Request::OpenWriter { handle: file.handle, path: file.path },
            )
        } else {
            answered(r, FsAnswer::Done)
        }
    }

    /// The file after it was found that nothing has to be opened for `access`.
    pub open spec fn upgraded(file: OpenFile, access: u32) -> OpenFile {
        let up = OpenFile::missing_for(file.access, access);
        if up.combined != file.access && !up.reader && !up.writer {
            OpenFile { access: up.combined, ..file }
        } else {
            file
        }
    }

    /// How opening a file begins. A file that is open is opened once more, and what it allows is
    /// widened; otherwise a handle is handed out, and the file is opened for reading, if that is
    /// wanted, or else for writing.
    pub open spec fn has_begun_open(
        &self,
        before: &Self,
        fileid: Fileid4,
        access: u32,
        r: FsStep,
    ) -> bool {
        if before.open_files@.contains_key(fileid) {
            self.has_begun_reopen(before, fileid, access, true, r)
        } else {
            ||| self.unchanged(before) && refused(r, Nfs4Status::Stale) && fileid != ROOT_FILEID
            ||| before.path_cache.path_of(fileid) is Some && if access & ACCESS_READ != 0 {
                &&& self.only_handed_out(before)
                &&& r matches FsStep::Ask { task, request: Request::OpenReader { handle, path } }
                &&& task == FsTask::OpenReader { fileid, path, handle, access }
                &&& before.path_cache.path_of(fileid) == Some(path@)
                &&& handle == before.next_handle
            } else if access & ACCESS_WRITE != 0 {
                &&& self.only_handed_out(before)
                &&& r matches FsStep::Ask { task, request: Request::OpenWriter { handle, path } }
                &&& task == FsTask::OpenWriter { fileid, path, handle, access }
                &&& before.path_cache.path_of(fileid) == Some(path@)
                &&& handle == before.next_handle
            } else {
                exists|path: String| #[trigger]
                    self.has_opened(
                        before,
                        fileid,
                        path,
                        before.next_handle,
                        access,
                        true,
                        r,
                    ) && before.path_cache.path_of(fileid) == Some(path@)
            }
        }
    }

    /// The file is open. `fresh` says whether its handle is handed out with that.
    pub open spec fn has_opened(
        &self,
        before: &Self,
        fileid: Fileid4,
        path: String,
        handle: u64,
        access: u32,
        fresh: bool,
        r: FsStep,
    ) -> bool {
        &&& self.same_config(before)
        &&& self.same_paths(before)
        &&& self.statuses() == before.statuses()
        &&& self.contents() == before.contents()
        &&& self.next_handle == if fresh {
            before.next_handle.wrapping_add(1)
        } else {
            before.next_handle
        }
        &&& self.open_files@ == before.open_files@.insert(
            fileid,
            OpenFile {
                fileid,
                path,
                handle,
                readable: access & ACCESS_READ != 0,
                writable: access & ACCESS_WRITE != 0,
                access,
                ref_count: 1,
            },
        )
        &&& answered(r, FsAnswer::Done)
    }

    fn note_open(&mut self, fileid: Fileid4, path: String, handle: u64, access: u32) -> (r: FsStep)
        requires
            old(self).wf(),
        ensures
            final(self).wf(),
            final(self).has_opened(old(self), fileid, path, handle, access, false, r),
    {
        let file = OpenFile {
            fileid,
            path,
            handle,
            readable: access & ACCESS_READ != 0,
            writable: access & ACCESS_WRITE != 0,
            access,
            ref_count: 1,
        };
        self.open_files.insert(fileid, file);
        answer(FsAnswer::Done)
    }

    /// What opening a file that is not open comes to, with the path that was found for it.
    pub open spec fn has_begun_open_at(
        &self,
        before: &Self,
        fileid: Fileid4,
        found: Option<String>,
        access: u32,
        r: FsStep,
    ) -> bool {
        let handle = before.next_handle;
        match found {
            None => self.unchanged(before) && refused(r, Nfs4Status::Stale),
            Some(path) => if access & ACCESS_READ != 0 {
                self.only_handed_out(before) && asked(
                    r,
                    FsTask::OpenReader { fileid, path, handle, access },
                    Request::OpenReader { handle, path },
                )
            } else if access & ACCESS_WRITE != 0 {
                self.only_handed_out(before) && asked(
                    r,
                    FsTask::OpenWriter { fileid, path, handle, access },
                    Request::OpenWriter { handle, path },
                )
            } else {
                self.has_opened(before, fileid, path, handle, access, true, r)
            },
        }
    }

    /// Opens a file that is not open, with the path that was found for it.
    pub fn open_file_at(
        &mut self,
        fileid: Fileid4,
        found: Option<String>,
        access: u32,
    ) -> (r: FsStep)
        requires
            old(self).wf(),
        ensures
            final(self).wf(),
            final(self).has_begun_open_at(old(self), fileid, found, access, r),
    {
        let path = match found {
            Some(p) => p,
            None => {
                return refuse(Nfs4Status::Stale);
            },
        };
        let handle: u64 = self.hand_out();
        if access & ACCESS_READ != 0 {
            FsStep::Ask {
                task: FsTask::OpenReader { fileid, path: path.clone(), handle, access },
                request: Request::OpenReader { handle, path },
            }
        } else if access & ACCESS_WRITE != 0 {
            FsStep::Ask {
                task: FsTask::OpenWriter { fileid, path: path.clone(), handle, access },
                request: Request::OpenWriter { handle, path },
            }
        } else {
            self.note_open(fileid, path, handle, access)
        }
    }

    /// Opens a file for a new state.
    pub fn open_file(&mut self, fileid: Fileid4, access: u32) -> (r: FsStep)
        requires
            old(self).wf(),
        ensures
            final(self).wf(),
            final(self).has_begun_open(old(self), fileid, access, r),
    {
        if self.open_files.contains_key(&fileid) {
            return self.reopen_file_ex(fileid, access, true);
        }
        let found = self.find_path(fileid);
        let ghost f = found;
        let r = self.open_file_at(fileid, found, access);
        proof {
            if let Some(path) = f {
                assert(access & ACCESS_READ == 0 && access & ACCESS_WRITE == 0
                    ==> self.has_opened(
                    old(self),
                    fileid,
                    path,
                    old(self).next_handle,
                    access,
                    true,
                    r,
                ));
            }
        }
        r
    }

    /// Once a file is open for reading, it is opened for writing, if that is wanted.
    pub open spec fn has_got_reader(
        &self,
        before: &Self,
        fileid: Fileid4,
        path: String,
        handle: u64,
        access: u32,
        reply: Reply,
        r: FsStep,
    ) -> bool {
        match reply {
            Reply::Length(_) => if access & ACCESS_WRITE != 0 {
                self.unchanged(before) && asked(
                    r,
                    FsTask::OpenWriter { fileid, path, handle, access },
                    Request::OpenWriter { handle, path },
                )
            } else {
                self.has_opened(before, fileid, path, handle, access, false, r)
            },
            _ => self.unchanged(before) && refused(r, failure_of(reply)),
        }
    }

    fn got_reader(
        &mut self,
        fileid: Fileid4,
        path: String,
        handle: u64,
        access: u32,
        reply: Reply,
    ) -> (r: FsStep)
        requires
            old(self).wf(),
        ensures
            final(self).wf(),
            final(self).has_got_reader(old(self), fileid, path, handle, access, reply, r),
    {
        match reply {
            Reply::Length(_) => if access & ACCESS_WRITE != 0 {
                FsStep::Ask {
                    task: FsTask::OpenWriter { fileid, path: path.clone(), handle, access },
                    request: Request::OpenWriter { handle, path },
                }
            } else {
                self.note_open(fileid, path, handle, access)
            },
            _ => refuse_reply(reply),
        }
    }

    /// Once a file is open for writing, it is open.
    pub open spec fn has_got_writer(
        &self,
        before: &Self,
        fileid: Fileid4,
        path: String,
        handle: u64,
        access: u32,
        reply: Reply,
        r: FsStep,
    ) -> bool {
        match reply {
            Reply::Length(_) => self.has_opened(before, fileid, path, handle, access, false, r),
            _ => self.unchanged(before) && refused(r, failure_of(reply)),
        }
    }

    fn got_writer(
        &mut self,
        fileid: Fileid4,
        path: String,
        handle: u64,
        access: u32,
        reply: Reply,
    ) -> (r: FsStep)
        requires
            old(self).wf(),
        ensures
            final(self).wf(),
            final(self).has_got_writer(old(self), fileid, path, handle, access, reply, r),
    {
        match reply {
            Reply::Length(_) => self.note_open(fileid, path, handle, access),
            _ => refuse_reply(reply),
        }
    }

    /// How opening a file once more begins: it counts as one more open, if `add_ref` says so, and
    /// what it allows is widened. A file that is not open is opened.
    pub open spec fn has_begun_reopen(
        &self,
        before: &Self,
        fileid: Fileid4,
        access: u32,
        add_ref: bool,
        r: FsStep,
    ) -> bool {
        if before.open_files@.contains_key(fileid) {
            let file = before.open_files@[fileid];
            let counted = if add_ref {
                OpenFile { ref_count: file.ref_count.wrapping_add(1), ..file }
            } else {
                file
            };
            &&& self.only_files(
                before,
                before.open_files@.insert(fileid, Self::upgraded(counted, access)),
            )
            &&& Self::upgrading(file, fileid, access, r)
        } else {
            self.unchanged(before) && r == FsStep::Next { call: FsCall::Open { fileid, access } }
        }
    }

    /// Opens a file once more, for a state that is there already.
    pub fn reopen_file_ex(&mut self, fileid: Fileid4, access: u32, add_ref: bool) -> (r: FsStep)
        requires
            old(self).wf(),
        ensures
            final(self).wf(),
            final(self).has_begun_reopen(old(self), fileid, access, add_ref, r),
    {
        let mut file = match self.open_files.remove(&fileid) {
            Some(f) => f,
            None => {
                assert(self.open_files@ =~= old(self).open_files@);
                return FsStep::Next { call: FsCall::Open { fileid, access } };
            },
        };
        if add_ref {
            file.ref_count = file.ref_count.wrapping_add(1);
        }
        let up = file.missing(access);
        let handle: u64 = file.handle;
        let r = if up.combined == file.access {
            answer(FsAnswer::Done)
        } else if up.reader {
            FsStep::Ask {
                task: FsTask::UpgradeReader { fileid, upgrade: up },
                request: Request::OpenReader { handle, path: file.path.clone() },
            }
        } else if up.writer {
            FsStep::Ask {
                task: FsTask::UpgradeWriter { fileid, upgrade: up },
                request: Request::OpenWriter { handle, path: file.path.clone() },
            }
        } else {
            file.access = up.combined;
            answer(FsAnswer::Done)
        };
        let ghost f = file;
        self.open_files.insert(fileid, file);
        assert(self.open_files@ =~= old(self).open_files@.insert(fileid, f));
        r
    }

    /// Opens a file once more, for a state that is there already.
    pub fn reopen_file(&mut self, fileid: Fileid4, access: u32) -> (r: FsStep)
        requires
            old(self).wf(),
        ensures
            final(self).wf(),
            final(self).has_begun_reopen(old(self), fileid, access, true, r),
    {
        self.reopen_file_ex(fileid, access, true)
    }

    /// Once an open file can be read, it is opened for writing, if that is missing, or allows what
    /// is wanted. A file that was closed meanwhile stays so.
    pub open spec fn has_got_more(
        &self,
        before: &Self,
        fileid: Fileid4,
        up: Upgrade,
        reads: bool,
        reply: Reply,
        r: FsStep,
    ) -> bool {
        match reply {
            Reply::Length(_) => if before.open_files@.contains_key(fileid) {
                let file = before.open_files@[fileid];
                if reads && up.writer {
                    &&& self.only_files(
                        before,
                        before.open_files@.insert(fileid, OpenFile { readable: true, ..file }),
                    )
                    &&& asked(
                        r,
                        FsTask::UpgradeWriter { fileid, upgrade: up },
                        Request::OpenWriter { handle: file.handle, path: file.path },
                    )
                } else {
                    &&& self.only_files(
                        before,
                        before.open_files@.insert(
                            fileid,
                            OpenFile {
                                readable: file.readable || reads,
                                writable: file.writable || !reads,
                                access: up.combined,
                                ..file
                            },
                        ),
                    )
                    &&& answered(r, FsAnswer::Done)
                }
            } else {
                self.unchanged(before) && answered(r, FsAnswer::Done)
            },
            _ => self.unchanged(before) && refused(r, failure_of(reply)),
        }
    }

    fn got_more(&mut self, fileid: Fileid4, up: Upgrade, reads: bool, reply: Reply) -> (r: FsStep)
        requires
            old(self).wf(),
        ensures
            final(self).wf(),
            final(self).has_got_more(old(self), fileid, up, reads, reply, r),
    {
        match reply {
            Reply::Length(_) => {
                let mut file = match self.open_files.remove(&fileid) {
                    Some(f) => f,
                    None => {
                        assert(self.open_files@ =~= old(self).open_files@);
                        return answer(FsAnswer::Done);
                    },
                };
                let r = if reads && up.writer {
                    file.readable = true;
                    FsStep::Ask {
                        task: FsTask::UpgradeWriter { fileid, upgrade: up },
                        request: Request::OpenWriter {
                            handle: file.handle,
                            path: file.path.clone(),
                        },
                    }
                } else {
                    if reads {
                        file.readable = true;
                    } else {
                        file.writable = true;
                    }
                    file.access = up.combined;
                    answer(FsAnswer::Done)
                };
                let ghost f = file;
                self.open_files.insert(fileid, file);
                assert(self.open_files@ =~= old(self).open_files@.insert(fileid, f));
                r
            },
            _ => refuse_reply(reply),
        }
    }

    /// How closing a file begins: there is one open less, and with the last the storage is asked
    /// to close it.
    pub open spec fn has_begun_close(&self, before: &Self, fileid: Fileid4, r: FsStep) -> bool {
        if before.open_files@.contains_key(fileid) {
            let file = before.open_files@[fileid];
            &&& self.only_files(
                before,
                before.open_files@.insert(
                    fileid,
                    OpenFile { ref_count: file.ref_count.wrapping_sub(1), ..file },
                ),
            )
            &&& if file.ref_count == 1 {
                asked(r, FsTask::Closing { fileid }, Request::Close { handle: file.handle })
            } else {
                answered(r, FsAnswer::Done)
            }
        } else {
            self.unchanged(before) && refused(r, Nfs4Status::BadStateid)
        }
    }

    /// Closes a file for one of its opens.
    pub fn close_file(&mut self, fileid: Fileid4) -> (r: FsStep)
        requires
            old(self).wf(),
        ensures
            final(self).wf(),
            final(self).has_begun_close(old(self), fileid, r),
    {
        let mut file = match self.open_files.remove(&fileid) {
            Some(f) => f,
            None => {
                assert(self.open_files@ =~= old(self).open_files@);
                return refuse(Nfs4Status::BadStateid);
            },
        };
        let last = file.release_ref();
        let handle: u64 = file.handle;
        let ghost f = file;
        self.open_files.insert(fileid, file);
        assert(self.open_files@ =~= old(self).open_files@.insert(fileid, f));
        if last {
            FsStep::Ask { task: FsTask::Closing { fileid }, request: Request::Close { handle } }
        } else {
            answer(FsAnswer::Done)
        }
    }

    /// Once the storage has closed a file, it is not open any more, and its status is forgotten.
    pub open spec fn has_closed(
        &self,
        before: &Self,
        fileid: Fileid4,
        reply: Reply,
        r: FsStep,
    ) -> bool {
        match reply {
            Reply::Done => {
                &&& self.same_config(before)
                &&& self.same_paths(before)
                &&& self.contents() == before.contents()
                &&& self.statuses() == before.statuses().remove(fileid)
                &&& self.open_files@ == before.open_files@.remove(fileid)
                &&& self.next_handle == before.next_handle
                &&& answered(r, FsAnswer::Done)
            },
            _ => self.unchanged(before) && refused(r, failure_of(reply)),
        }
    }

    fn closed(&mut self, fileid: Fileid4, reply: Reply) -> (r: FsStep)
        requires
            old(self).wf(),
        ensures
            final(self).wf(),
            final(self).has_closed(old(self), fileid, reply, r),
    {
        match reply {
            Reply::Done => {
                self.invalidate_status_cache(fileid);
                self.open_files.remove(&fileid);
                assert(self.open_files@ =~= old(self).open_files@.remove(fileid));
                answer(FsAnswer::Done)
            },
            _ => refuse_reply(reply),
        }
    }

    // -----------------------------------------------------------------------
    // Reading and writing
    // -----------------------------------------------------------------------

    /// How reading a file begins that need not be open: it is opened for this one reading.
    pub open spec fn has_begun_read(
        &self,
        before: &Self,
        fileid: Fileid4,
        offset: u64,
        count: u32,
        r: FsStep,
    ) -> bool {
        ||| self.unchanged(before) && refused(r, Nfs4Status::Stale) && fileid != ROOT_FILEID
        ||| {
            &&& self.only_handed_out(before)
            &&& r matches FsStep::Ask { task, request: Request::OpenReader { handle, path } }
            &&& handle == before.next_handle
            &&& before.path_cache.path_of(fileid) == Some(path@)
            &&& task == FsTask::ReadLen { handle, offset, count, close: true }
        }
    }

    /// Reads a file that need not be open.
    pub fn read(&mut self, fileid: Fileid4, offset: u64, count: u32) -> (r: FsStep)
        requires
            old(self).wf(),
        ensures
            final(self).wf(),
            final(self).has_begun_read(old(self), fileid, offset, count, r),
    {
        let found = self.find_path(fileid);
        self.read_at(found, offset, count)
    }

    /// Reads a file that is not open, with the path that was found for it.
    pub fn read_at(&mut self, found: Option<String>, offset: u64, count: u32) -> (r: FsStep)
        requires
            old(self).wf(),
        ensures
            final(self).wf(),
            match found {
                None => final(self).unchanged(old(self)) && refused(r, Nfs4Status::Stale),
                Some(path) => final(self).only_handed_out(old(self)) && asked(
                    r,
                    FsTask::ReadLen { handle: old(self).next_handle, offset, count, close: true },
                    Request::OpenReader { handle: old(self).next_handle, path },
                ),
            },
    {
        match found {
            Some(path) => {
                let handle: u64 = self.hand_out();
                FsStep::Ask {
                    task: FsTask::ReadLen { handle, offset, count, close: true },
                    request: Request::OpenReader { handle, path },
                }
            },
            None => refuse(Nfs4Status::Stale),
        }
    }

    /// How reading an open file begins.
    pub open spec fn has_begun_read_open(
        &self,
        before: &Self,
        fileid: Fileid4,
        offset: u64,
        count: u32,
        r: FsStep,
    ) -> bool {
        self.unchanged(before) && if !before.open_files@.contains_key(fileid) {
            refused(r, Nfs4Status::BadStateid)
        } else if !before.open_files@[fileid].readable {
            refused(r, Nfs4Status::Openmode)
        } else {
            let handle = before.open_files@[fileid].handle;
            asked(
                r,
                FsTask::ReadLen { handle, offset, count, close: false },
                Request::ReaderLen { handle },
            )
        }
    }

    /// Reads an open file.
    pub fn read_open(&mut self, fileid: Fileid4, offset: u64, count: u32) -> (r: FsStep)
        requires
            old(self).wf(),
        ensures
            final(self).wf(),
            final(self).has_begun_read_open(old(self), fileid, offset, count, r),
    {
        match self.get_open_file(fileid) {
            None => refuse(Nfs4Status::BadStateid),
            Some(file) => if !file.readable {
                refuse(Nfs4Status::Openmode)
            } else {
                let handle: u64 = file.handle;
                FsStep::Ask {
                    task: FsTask::ReadLen { handle, offset, count, close: false },
                    request: Request::ReaderLen { handle },
                }
            },
        }
    }

    /// Once the length of a file is known, what lies in the file is read; nothing lies behind its
    /// end.
    pub open spec fn has_got_len(
        &self,
        before: &Self,
        handle: u64,
        offset: u64,
        count: u32,
        close: bool,
        reply: Reply,
        r: FsStep,
    ) -> bool {
        self.unchanged(before) && match reply {
            Reply::Length(len) => match to_read(len, offset, count) {
                None => {
                    &&& r matches FsStep::Done { result: Ok(FsAnswer::Data { data, eof }) }
                    &&& data@.len() == 0
                    &&& eof
                },
                Some(n) => asked(
                    r,
                    FsTask::ReadData { handle, offset, count, len, close },
                    Request::ReadAt { handle, offset: offset as i64, count: n },
                ),
            },
            _ => refused(r, failure_of(reply)),
        }
    }

    fn got_len(&mut self, handle: u64, offset: u64, count: u32, close: bool, reply: Reply) -> (r:
        FsStep)
        requires
            old(self).wf(),
        ensures
            final(self).wf(),
            final(self).has_got_len(old(self), handle, offset, count, close, reply, r),
    {
        match reply {
            Reply::Length(len) => match plan_read(len, offset, count) {
                None => answer(FsAnswer::Data { data: Vec::new(), eof: true }),
                Some(n) => FsStep::Ask {
                    task: FsTask::ReadData { handle, offset, count, len, close },
                    request: Request::ReadAt {
                        handle,
                        offset: #[verifier::truncate] (offset as i64),
                        count: n,
                    },
                },
            },
            _ => refuse_reply(reply),
        }
    }

    /// What was read, and whether it goes to the end. A file that was opened for this one reading
    /// is closed first.
    pub open spec fn has_got_data(
        &self,
        before: &Self,
        handle: u64,
        offset: u64,
        count: u32,
        len: i64,
        close: bool,
        reply: Reply,
        r: FsStep,
    ) -> bool {
        self.unchanged(before) && match reply {
            Reply::Data(data) => {
                let eof = at_end(len, offset, count, data@.len());
                if close {
                    asked(r, FsTask::ReadClose { data, eof }, Request::Close { handle })
                } else {
                    answered(r, FsAnswer::Data { data, eof })
                }
            },
            _ => refused(r, failure_of(reply)),
        }
    }

    fn got_data(
        &mut self,
        handle: u64,
        offset: u64,
        count: u32,
        len: i64,
        close: bool,
        reply: Reply,
    ) -> (r: FsStep)
        requires
            old(self).wf(),
        ensures
            final(self).wf(),
            final(self).has_got_data(old(self), handle, offset, count, len, close, reply, r),
    {
        match reply {
            Reply::Data(data) => {
                let eof = reached_end(len, offset, count, data.len());
                if close {
                    FsStep::Ask {
                        task: FsTask::ReadClose { data, eof },
                        request: Request::Close { handle },
                    }
                } else {
                    answer(FsAnswer::Data { data, eof })
                }
            },
            _ => refuse_reply(reply),
        }
    }

    /// How writing a file begins that need not be open: it is opened for this one writing.
    pub open spec fn has_begun_write(
        &self,
        before: &Self,
        fileid: Fileid4,
        offset: u64,
        data: Vec<u8>,
        r: FsStep,
    ) -> bool {
        if before.config.read_only {
            self.unchanged(before) && refused(r, Nfs4Status::Rofs)
        } else {
            ||| self.unchanged(before) && refused(r, Nfs4Status::Stale) && fileid != ROOT_FILEID
            ||| {
                &&& self.only_handed_out(before)
                &&& r matches FsStep::Ask { task, request: Request::OpenWriter { handle, path } }
                &&& handle == before.next_handle
                &&& before.path_cache.path_of(fileid) == Some(path@)
                &&& task == FsTask::WriteLen { fileid, handle, offset, data }
            }
        }
    }

    /// Writes a file that need not be open.
    pub fn write(&mut self, fileid: Fileid4, offset: u64, data: Vec<u8>) -> (r: FsStep)
        requires
            old(self).wf(),
        ensures
            final(self).wf(),
            final(self).has_begun_write(old(self), fileid, offset, data, r),
    {
        let found = self.find_for_change(fileid);
        self.write_at(fileid, found, offset, data)
    }

    /// Writes a file that is not open, with the path that was found for it.
    pub fn write_at(&mut self, fileid: Fileid4, found: Option<String>, offset: u64, data: Vec<u8>) -> (r:
        FsStep)
        requires
            old(self).wf(),
        ensures
            final(self).wf(),
            if old(self).config.read_only {
                final(self).unchanged(old(self)) && refused(r, Nfs4Status::Rofs)
            } else {
                match found {
                    None => final(self).unchanged(old(self)) && refused(r, Nfs4Status::Stale),
                    Some(path) => final(self).only_handed_out(old(self)) && asked(
                        r,
                        FsTask::WriteLen { fileid, handle: old(self).next_handle, offset, data },
                        Request::OpenWriter { handle: old(self).next_handle, path },
                    ),
                }
            },
    {
        if self.config.read_only {
            return refuse(Nfs4Status::Rofs);
        }
        match found {
            Some(path) => {
                let handle: u64 = self.hand_out();
                FsStep::Ask {
                    task: FsTask::WriteLen { fileid, handle, offset, data },
                    request: Request::OpenWriter { handle, path },
                }
            },
            None => refuse(Nfs4Status::Stale),
        }
    }

    /// Where a writing ends.
    pub open spec fn write_end(offset: u64, len: nat) -> i64 {
        (offset as i64).wrapping_add((len as u32) as i64)
    }

    /// A file that ends before the writing does is made longer first.
    pub open spec fn has_got_write_len(
        &self,
        before: &Self,
        fileid: Fileid4,
        handle: u64,
        offset: u64,
        data: Vec<u8>,
        reply: Reply,
        r: FsStep,
    ) -> bool {
        self.unchanged(before) && match reply {
            Reply::Length(len) => if Self::write_end(offset, data@.len()) > len {
                asked(
                    r,
                    FsTask::WriteExtend { fileid, handle, offset, data },
                    Request::Extend { handle, len: Self::write_end(offset, data@.len()) },
                )
            } else {
                asked(
                    r,
                    FsTask::WriteData { fileid, handle, count: data@.len() as u32 },
                    Request::WriteAt { handle, offset: offset as i64, data, sync: false },
                )
            },
            _ => refused(r, failure_of(reply)),
        }
    }

    fn got_write_len(
        &mut self,
        fileid: Fileid4,
        handle: u64,
        offset: u64,
        data: Vec<u8>,
        reply: Reply,
    ) -> (r: FsStep)
        requires
            old(self).wf(),
        ensures
            final(self).wf(),
            final(self).has_got_write_len(old(self), fileid, handle, offset, data, reply, r),
    {
        match reply {
            Reply::Length(len) => {
                let count: u32 = #[verifier::truncate] (data.len() as u32);
                let start: i64 = #[verifier::truncate] (offset as i64);
                let end: i64 = start.wrapping_add(count as i64);
                if end > len {
                    FsStep::Ask {
                        task: FsTask::WriteExtend { fileid, handle, offset, data },
                        request: Request::Extend { handle, len: end },
                    }
                } else {
                    FsStep::Ask {
                        task: FsTask::WriteData { fileid, handle, count },
                        request: Request::WriteAt { handle, offset: start, data, sync: false },
                    }
                }
            },
            _ => refuse_reply(reply),
        }
    }

    /// Once the file is long enough, it is written.
    pub open spec fn has_extended(
        &self,
        before: &Self,
        fileid: Fileid4,
        handle: u64,
        offset: u64,
        data: Vec<u8>,
        reply: Reply,
        r: FsStep,
    ) -> bool {
        self.unchanged(before) && match reply {
            Reply::Done => asked(
                r,
                FsTask::WriteData { fileid, handle, count: data@.len() as u32 },
                Request::WriteAt { handle, offset: offset as i64, data, sync: false },
            ),
            _ => refused(r, failure_of(reply)),
        }
    }

    fn extended(
        &mut self,
        fileid: Fileid4,
        handle: u64,
        offset: u64,
        data: Vec<u8>,
        reply: Reply,
    ) -> (r: FsStep)
        requires
            old(self).wf(),
        ensures
            final(self).wf(),
            final(self).has_extended(old(self), fileid, handle, offset, data, reply, r),
    {
        match reply {
            Reply::Done => {
                let count: u32 = #[verifier::truncate] (data.len() as u32);
                FsStep::Ask {
                    task: FsTask::WriteData { fileid, handle, count },
                    request: Request::WriteAt {
                        handle,
                        offset: #[verifier::truncate] (offset as i64),
                        data,
                        sync: false,
                    },
                }
            },
            _ => refuse_reply(reply),
        }
    }

    /// Once the file was written, it is closed.
    pub open spec fn has_written(
        &self,
        before: &Self,
        fileid: Fileid4,
        handle: u64,
        count: u32,
        reply: Reply,
        r: FsStep,
    ) -> bool {
        self.unchanged(before) && match reply {
            Reply::Written { .. } => asked(
                r,
                FsTask::WriteClose { fileid, count },
                Request::Close { handle },
            ),
            _ => refused(r, failure_of(reply)),
        }
    }

    fn written(&mut self, fileid: Fileid4, handle: u64, count: u32, reply: Reply) -> (r: FsStep)
        requires
            old(self).wf(),
        ensures
            final(self).wf(),
            final(self).has_written(old(self), fileid, handle, count, reply, r),
    {
        match reply {
            Reply::Written { .. } => FsStep::Ask {
                task: FsTask::WriteClose { fileid, count },
                request: Request::Close { handle },
            },
            _ => refuse_reply(reply),
        }
    }

    /// Once a file that was written is closed, its status is forgotten. What was written lasts.
    pub open spec fn has_closed_written(
        &self,
        before: &Self,
        fileid: Fileid4,
        count: u32,
        reply: Reply,
        r: FsStep,
    ) -> bool {
        match reply {
            Reply::Done => {
                &&& self.same_config(before)
                &&& self.same_paths(before)
                &&& self.same_files(before)
                &&& self.contents() == before.contents()
                &&& self.statuses() == before.statuses().remove(fileid)
                &&& answered(r, FsAnswer::Written { count, synced: true })
            },
            _ => self.unchanged(before) && refused(r, failure_of(reply)),
        }
    }

    fn closed_written(&mut self, fileid: Fileid4, count: u32, reply: Reply) -> (r: FsStep)
        requires
            old(self).wf(),
        ensures
            final(self).wf(),
            final(self).has_closed_written(old(self), fileid, count, reply, r),
    {
        match reply {
            Reply::Done => {
                self.invalidate_status_cache(fileid);
                answer(FsAnswer::Written { count, synced: true })
            },
            _ => refuse_reply(reply),
        }
    }

    /// How writing an open file begins.
    pub open spec fn has_begun_write_open(
        &self,
        before: &Self,
        fileid: Fileid4,
        offset: u64,
        data: Vec<u8>,
        sync: bool,
        r: FsStep,
    ) -> bool {
        self.unchanged(before) && if !before.open_files@.contains_key(fileid) {
            refused(r, Nfs4Status::BadStateid)
        } else if !before.open_files@[fileid].writable {
            refused(r, Nfs4Status::Openmode)
        } else {
            asked(
                r,
                FsTask::WriteOpen,
                Request::WriteAt {
                    handle: before.open_files@[fileid].handle,
                    offset: offset as i64,
                    data,
                    sync,
                },
            )
        }
    }

    /// Writes an open file.
    pub fn write_open(&mut self, fileid: Fileid4, offset: u64, data: Vec<u8>, sync: bool) -> (r:
        FsStep)
        requires
            old(self).wf(),
        ensures
            final(self).wf(),
            final(self).has_begun_write_open(old(self), fileid, offset, data, sync, r),
    {
        match self.get_open_file(fileid) {
            None => refuse(Nfs4Status::BadStateid),
            Some(file) => if !file.writable {
                refuse(Nfs4Status::Openmode)
            } else {
                FsStep::Ask {
                    task: FsTask::WriteOpen,
                    request: Request::WriteAt {
                        handle: file.handle,
                        offset: #[verifier::truncate] (offset as i64),
                        data,
                        sync,
                    },
                }
            },
        }
    }

    /// How asking how far an open file was written begins. A file that is not open for writing was
    /// not written.
    pub open spec fn has_begun_pos(&self, before: &Self, fileid: Fileid4, r: FsStep) -> bool {
        self.unchanged(before) && if before.open_files@.contains_key(fileid)
            && before.open_files@[fileid].writable {
            asked(
                r,
                FsTask::WriterPos,
                Request::WriterPos { handle: before.open_files@[fileid].handle },
            )
        } else {
            answered(r, FsAnswer::Position(None))
        }
    }

    /// Asks how far an open file was written.
    pub fn writer_pos(&mut self, fileid: Fileid4) -> (r: FsStep)
        requires
            old(self).wf(),
        ensures
            final(self).wf(),
            final(self).has_begun_pos(old(self), fileid, r),
    {
        if let Some(file) = self.get_open_file(fileid) {
            if file.writable {
                return FsStep::Ask {
                    task: FsTask::WriterPos,
                    request: Request::WriterPos { handle: file.handle },
                };
            }
        }
        answer(FsAnswer::Position(None))
    }

    /// How seeing to it that what was written lasts begins. A file that is not open for writing
    /// takes nothing.
    pub open spec fn has_begun_commit(&self, before: &Self, fileid: Fileid4, r: FsStep) -> bool {
        self.unchanged(before) && if before.open_files@.contains_key(fileid)
            && before.open_files@[fileid].writable {
            asked(
                r,
                FsTask::Committing,
                Request::Flush { handle: before.open_files@[fileid].handle },
            )
        } else {
            answered(r, FsAnswer::Done)
        }
    }

    /// Sees to it that what was written lasts.
    pub fn commit(&mut self, fileid: Fileid4) -> (r: FsStep)
        requires
            old(self).wf(),
        ensures
            final(self).wf(),
            final(self).has_begun_commit(old(self), fileid, r),
    {
        if let Some(file) = self.get_open_file(fileid) {
            if file.writable {
                return FsStep::Ask {
                    task: FsTask::Committing,
                    request: Request::Flush { handle: file.handle },
                };
            }
        }
        answer(FsAnswer::Done)
    }

    // -----------------------------------------------------------------------
    // Setting attributes
    // -----------------------------------------------------------------------

    /// How setting attributes begins. Where the length is among them, the status of the file is
    /// wanted first.
    pub open spec fn has_begun_setattr(
        &self,
        before: &Self,
        fileid: Fileid4,
        set: SetAttrs,
        r: FsStep,
    ) -> bool {
        if before.config.read_only {
            self.unchanged(before) && refused(r, Nfs4Status::Rofs)
        } else {
            ||| self.unchanged(before) && refused(r, Nfs4Status::Stale) && fileid != ROOT_FILEID
            ||| exists|path: String| #[trigger]
                before.setattr_goes_on(self, fileid, path, set, r)
                    && before.path_cache.path_of(fileid) == Some(path@)
        }
    }

    /// How setting attributes begins once the path of the file is known.
    pub open spec fn setattr_goes_on(
        &self,
        after: &Self,
        fileid: Fileid4,
        path: String,
        set: SetAttrs,
        r: FsStep,
    ) -> bool {
        if set.size is Some {
            after.has_begun_status(self, fileid, StatusFor::Setattr { path, set }, r)
        } else {
            after.unchanged(self) && Self::naming(fileid, path, set, r)
        }
    }

    /// Sets attributes.
    pub fn setattr(&mut self, fileid: Fileid4, set: SetAttrs) -> (r: FsStep)
        requires
            old(self).wf(),
        ensures
            final(self).wf(),
            final(self).has_begun_setattr(old(self), fileid, set, r),
    {
        let found = self.find_for_change(fileid);
        let ghost f = found;
        let r = self.setattr_at(fileid, found, set);
        proof {
            if let Some(path) = f {
                assert(!old(self).config.read_only ==> old(self).setattr_goes_on(
                    self,
                    fileid,
                    path,
                    set,
                    r,
                ));
            }
        }
        r
    }

    /// Sets attributes of a file, with the path that was found for it.
    pub fn setattr_at(
        &mut self,
        fileid: Fileid4,
        found: Option<String>,
        set: SetAttrs,
    ) -> (r: FsStep)
        requires
            old(self).wf(),
        ensures
            final(self).wf(),
            if old(self).config.read_only {
                final(self).unchanged(old(self)) && refused(r, Nfs4Status::Rofs)
            } else {
                match found {
                    None => final(self).unchanged(old(self)) && refused(r, Nfs4Status::Stale),
                    Some(path) => old(self).setattr_goes_on(final(self), fileid, path, set, r),
                }
            },
    {
        if self.config.read_only {
            return refuse(Nfs4Status::Rofs);
        }
        let path = match found {
            Some(p) => p,
            None => {
                return refuse(Nfs4Status::Stale);
            },
        };
        if set.size.is_some() {
            self.begin_status(fileid, StatusFor::Setattr { path, set })
        } else {
            self.name(fileid, path, set)
        }
    }

    /// A length that differs from that of the file is set, through what the file is written by if
    /// it is open for writing.
    pub open spec fn has_begun_resize(
        &self,
        before: &Self,
        fileid: Fileid4,
        status: FileStatus,
        path: String,
        set: SetAttrs,
        r: FsStep,
    ) -> bool {
        if set.size is None || set.size->Some_0 == status.len as u64 {
            self.unchanged(before) && Self::naming(fileid, path, set, r)
        } else if before.open_files@.contains_key(fileid) && before.open_files@[fileid].writable {
            let handle = before.open_files@[fileid].handle;
            self.unchanged(before) && asked(
                r,
                FsTask::SetResize { fileid, path, handle, set, close: false },
                Request::Resize { handle, len: set.size->Some_0 as i64 },
            )
        } else {
            let handle = before.next_handle;
            self.only_handed_out(before) && asked(
                r,
                FsTask::SetOpenWriter { fileid, path, handle, set },
                Request::OpenWriter { handle, path },
            )
        }
    }

    fn begin_resize(&mut self, fileid: Fileid4, status: FileStatus, path: String, set: SetAttrs) -> (r:
        FsStep)
        requires
            old(self).wf(),
        ensures
            final(self).wf(),
            final(self).has_begun_resize(old(self), fileid, status, path, set, r),
    {
        let new_size: u64 = match set.size {
            Some(n) => n,
            None => {
                return self.name(fileid, path, set);
            },
        };
        let length: u64 = #[verifier::truncate] (status.len as u64);
        if new_size == length {
            return self.name(fileid, path, set);
        }
        if let Some(file) = self.get_open_file(fileid) {
            if file.writable {
                let handle: u64 = file.handle;
                return FsStep::Ask {
                    task: FsTask::SetResize { fileid, path, handle, set, close: false },
                    request: Request::Resize {
                        handle,
                        len: #[verifier::truncate] (new_size as i64),
                    },
                };
            }
        }
        let handle: u64 = self.hand_out();
        FsStep::Ask {
            task: FsTask::SetOpenWriter { fileid, path: path.clone(), handle, set },
            request: Request::OpenWriter { handle, path },
        }
    }

    /// Once a file is open for writing, its length is set.
    pub open spec fn has_opened_to_resize(
        &self,
        before: &Self,
        fileid: Fileid4,
        path: String,
        handle: u64,
        set: SetAttrs,
        reply: Reply,
        r: FsStep,
    ) -> bool {
        self.unchanged(before) && match reply {
            Reply::Length(_) => asked(
                r,
                FsTask::SetResize { fileid, path, handle, set, close: true },
                Request::Resize {
                    handle,
                    len: match set.size {
                        Some(n) => n as i64,
                        None => 0,
                    },
                },
            ),
            _ => refused(r, failure_of(reply)),
        }
    }

    fn opened_to_resize(
        &mut self,
        fileid: Fileid4,
        path: String,
        handle: u64,
        set: SetAttrs,
        reply: Reply,
    ) -> (r: FsStep)
        requires
            old(self).wf(),
        ensures
            final(self).wf(),
            final(self).has_opened_to_resize(old(self), fileid, path, handle, set, reply, r),
    {
        match reply {
            Reply::Length(_) => {
                let len: i64 = match set.size {
                    Some(n) => #[verifier::truncate] (n as i64),
                    None => 0,
                };
                FsStep::Ask {
                    task: FsTask::SetResize { fileid, path, handle, set, close: true },
                    request: Request::Resize { handle, len },
                }
            },
            _ => refuse_reply(reply),
        }
    }

    /// Once the length is set, the status of the file is forgotten, and the other attributes are
    /// set. A file that was opened for this is closed first.
    pub open spec fn has_resized(
        &self,
        before: &Self,
        fileid: Fileid4,
        path: String,
        handle: u64,
        set: SetAttrs,
        close: bool,
        reply: Reply,
        r: FsStep,
    ) -> bool {
        match reply {
            Reply::Done => if close {
                self.unchanged(before) && asked(
                    r,
                    FsTask::SetClose { fileid, path, set },
                    Request::Close { handle },
                )
            } else {
                self.has_forgotten(before, fileid) && Self::naming(fileid, path, set, r)
            },
            _ => self.unchanged(before) && refused(r, failure_of(reply)),
        }
    }

    /// `self` is `before` without the status of a file.
    pub open spec fn has_forgotten(&self, before: &Self, fileid: Fileid4) -> bool {
        &&& self.same_config(before)
        &&& self.same_paths(before)
        &&& self.same_files(before)
        &&& self.contents() == before.contents()
        &&& self.statuses() == before.statuses().remove(fileid)
    }

    fn resized(
        &mut self,
        fileid: Fileid4,
        path: String,
        handle: u64,
        set: SetAttrs,
        close: bool,
        reply: Reply,
    ) -> (r: FsStep)
        requires
            old(self).wf(),
        ensures
            final(self).wf(),
            final(self).has_resized(old(self), fileid, path, handle, set, close, reply, r),
    {
        match reply {
            Reply::Done => if close {
                FsStep::Ask {
                    task: FsTask::SetClose { fileid, path, set },
                    request: Request::Close { handle },
                }
            } else {
                self.invalidate_status_cache(fileid);
                self.name(fileid, path, set)
            },
            _ => refuse_reply(reply),
        }
    }

    /// Once a file that was opened to set its length is closed, its status is forgotten, and the
    /// other attributes are set.
    pub open spec fn has_closed_resized(
        &self,
        before: &Self,
        fileid: Fileid4,
        path: String,
        set: SetAttrs,
        reply: Reply,
        r: FsStep,
    ) -> bool {
        match reply {
            Reply::Done => self.has_forgotten(before, fileid) && Self::naming(fileid, path, set, r),
            _ => self.unchanged(before) && refused(r, failure_of(reply)),
        }
    }

    fn closed_resized(&mut self, fileid: Fileid4, path: String, set: SetAttrs, reply: Reply) -> (r:
        FsStep)
        requires
            old(self).wf(),
        ensures
            final(self).wf(),
            final(self).has_closed_resized(old(self), fileid, path, set, reply, r),
    {
        match reply {
            Reply::Done => {
                self.invalidate_status_cache(fileid);
                self.name(fileid, path, set)
            },
            _ => refuse_reply(reply),
        }
    }

    /// An owner and a group are set by their names, which are looked up first.
    pub open spec fn naming(fileid: Fileid4, path: String, set: SetAttrs, r: FsStep) -> bool {
        if set.uid is Some || set.gid is Some {
            asked(
                r,
                FsTask::SetNames { fileid, path, mode: set.mode },
                Request::Names { uid: set.uid, gid: set.gid },
            )
        } else {
            Self::setting(fileid, path, set.mode, None, None, r)
        }
    }

    fn name(&self, fileid: Fileid4, path: String, set: SetAttrs) -> (r: FsStep)
        ensures
            Self::naming(fileid, path, set, r),
    {
        if set.uid.is_some() || set.gid.is_some() {
            FsStep::Ask {
                task: FsTask::SetNames { fileid, path, mode: set.mode },
                request: Request::Names { uid: set.uid, gid: set.gid },
            }
        } else {
            Self::set(fileid, path, set.mode, None, None)
        }
    }

    /// Where there is anything to set, the storage is asked to set it. The call ends with the
    /// status of the file.
    pub open spec fn setting(
        fileid: Fileid4,
        path: String,
        mode: Option<u32>,
        owner: Option<String>,
        group: Option<String>,
        r: FsStep,
    ) -> bool {
        if mode is Some || owner is Some || group is Some {
            asked(r, FsTask::Setting { fileid }, Request::SetAttr { path, mode, owner, group })
        } else {
            r == FsStep::Next { call: FsCall::Status { fileid } }
        }
    }

    fn set(
        fileid: Fileid4,
        path: String,
        mode: Option<u32>,
        owner: Option<String>,
        group: Option<String>,
    ) -> (r: FsStep)
        ensures
            Self::setting(fileid, path, mode, owner, group, r),
    {
        if mode.is_some() || owner.is_some() || group.is_some() {
            FsStep::Ask {
                task: FsTask::Setting { fileid },
                request: Request::SetAttr { path, mode, owner, group },
            }
        } else {
            FsStep::Next { call: FsCall::Status { fileid } }
        }
    }
}

/// Puts pairs of numbers into order, by the first number and then by the second. The `sort` of
/// slices does it: it keeps the pairs and puts them into the order that tuples have.
#[verifier::external_body]
fn sort_pairs(v: &mut Vec<(u64, usize)>)
    ensures
        final(v)@.to_multiset() == old(v)@.to_multiset(),
        forall|i: int, j: int|
            0 <= i < j < final(v)@.len() ==> not_behind(
                #[trigger] final(v)@[i],
                #[trigger] final(v)@[j],
            ),
{
    v.sort();
}

/// Whether a pair stands before another or is the same.
pub open spec fn not_behind(a: (u64, usize), b: (u64, usize)) -> bool {
    a.0 < b.0 || a.0 == b.0 && a.1 <= b.1
}

/// Whether `order` names the entries of a directory in the order of their numbers; entries with the
/// same number stay in the order in which they were listed.
pub open spec fn in_order(entries: Seq<FileStatus>, dir: Seq<char>, order: Seq<int>) -> bool {
    &&& order.len() == entries.len()
    &&& forall|i: int| 0 <= i < order.len() ==> 0 <= #[trigger] order[i] < entries.len()
    &&& forall|i: int, j: int|
        0 <= i < j < order.len() ==> comes_first(
            entries,
            dir,
            #[trigger] order[i],
            #[trigger] order[j],
        )
}

/// Whether an entry comes before another one.
pub open spec fn comes_first(entries: Seq<FileStatus>, dir: Seq<char>, a: int, b: int) -> bool {
    ||| entry_id(entries, dir, a) < entry_id(entries, dir, b)
    ||| entry_id(entries, dir, a) == entry_id(entries, dir, b) && a < b
}

/// The numbers of the entries of a directory.
pub open spec fn entry_id(entries: Seq<FileStatus>, dir: Seq<char>, i: int) -> u64 {
    status_fileid(entries[i], child_path(dir, entries[i].name@))
}

/// The first `max` entries in the given order whose numbers lie behind `cookie`.
pub open spec fn picked(
    entries: Seq<FileStatus>,
    dir: Seq<char>,
    order: Seq<int>,
    cookie: u64,
    max: nat,
) -> Seq<int>
    decreases order.len(),
{
    if order.len() == 0 {
        Seq::empty()
    } else {
        let before = picked(entries, dir, order.drop_last(), cookie, max);
        if before.len() < max && entry_id(entries, dir, order.last()) > cookie {
            before.push(order.last())
        } else {
            before
        }
    }
}

/// The paths that are noted for files after those of the given entries were.
pub open spec fn noted_paths(
    paths: Map<u64, Seq<char>>,
    entries: Seq<FileStatus>,
    dir: Seq<char>,
    picks: Seq<int>,
) -> Map<u64, Seq<char>>
    decreases picks.len(),
{
    if picks.len() == 0 {
        paths
    } else {
        let before = noted_paths(paths, entries, dir, picks.drop_last());
        let fileid = entry_id(entries, dir, picks.last());
        if fileid == ROOT_FILEID {
            before
        } else {
            before.insert(fileid, child_path(dir, entries[picks.last()].name@))
        }
    }
}

/// The files that are noted for paths after those of the given entries were.
pub open spec fn noted_ids(
    ids: Map<Seq<char>, u64>,
    entries: Seq<FileStatus>,
    dir: Seq<char>,
    picks: Seq<int>,
) -> Map<Seq<char>, u64>
    decreases picks.len(),
{
    if picks.len() == 0 {
        ids
    } else {
        let before = noted_ids(ids, entries, dir, picks.drop_last());
        let fileid = entry_id(entries, dir, picks.last());
        if fileid == ROOT_FILEID {
            before
        } else {
            before.insert(child_path(dir, entries[picks.last()].name@), fileid)
        }
    }
}

impl DirEntry {
    /// Whether this is the entry of a directory that the storage listed as `status`.
    pub open spec fn is_of(&self, status: FileStatus, fileid: u64) -> bool {
        &&& self.fileid == fileid
        &&& self.name == status.name
        &&& self.status == FileStatus { id: fileid as i64, ..status }
    }
}

/// Whether `order` holds each number below `n` once.
proof fn order_is_complete(
    v: Seq<(u64, usize)>,
    o: Seq<(u64, usize)>,
    entries: Seq<FileStatus>,
    dir: Seq<char>,
)
    requires
        o.len() == entries.len(),
        forall|i: int|
            0 <= i < o.len() ==> (#[trigger] o[i]).1 == i && o[i].0 == entry_id(entries, dir, i),
        v.to_multiset() == o.to_multiset(),
        forall|i: int, j: int|
            0 <= i < j < v.len() ==> not_behind(#[trigger] v[i], #[trigger] v[j]),
    ensures
        v.len() == entries.len(),
        forall|i: int|
            0 <= i < v.len() ==> 0 <= (#[trigger] v[i]).1 < entries.len() && v[i].0 == entry_id(
                entries,
                dir,
                v[i].1 as int,
            ),
        in_order(entries, dir, Seq::new(v.len(), |i: int| v[i].1 as int)),
{
    broadcast use vstd::seq_lib::group_to_multiset_ensures;

    assert(v.to_multiset().len() == v.len());
    assert(o.to_multiset().len() == o.len());
    assert forall|i: int| 0 <= i < v.len() implies 0 <= (#[trigger] v[i]).1 < entries.len()
        && v[i].0 == entry_id(entries, dir, v[i].1 as int) by {
        assert(v.contains(v[i]));
        assert(o.to_multiset().count(v[i]) > 0);
        assert(o.contains(v[i]));
        let k = choose|k: int| 0 <= k < o.len() && o[k] == v[i];
        assert(o[k].1 == k);
    }
    assert(o.no_duplicates()) by {
        assert forall|i: int, j: int|
            0 <= i < o.len() && 0 <= j < o.len() && i != j implies o[i] != o[j] by {
            assert(o[i].1 == i && o[j].1 == j);
        }
    }
    o.lemma_multiset_has_no_duplicates();
    v.lemma_multiset_has_no_duplicates_conv();
    let order = Seq::new(v.len(), |i: int| v[i].1 as int);
    assert forall|i: int, j: int| 0 <= i < j < order.len() implies comes_first(
        entries,
        dir,
        #[trigger] order[i],
        #[trigger] order[j],
    ) by {
        assert(not_behind(v[i], v[j]));
        assert(v[i] != v[j]);
    }
}

impl Nfs4FileSystem {
    /// How listing a directory begins.
    pub open spec fn has_begun_readdir(
        &self,
        before: &Self,
        dir: Fileid4,
        cookie: u64,
        max_entries: usize,
        r: FsStep,
    ) -> bool {
        self.unchanged(before) && match r {
            FsStep::Ask { task, request: Request::List { path } } => {
                &&& task == FsTask::Readdir { path, cookie, max_entries }
                &&& before.path_cache.path_of(dir) == Some(path@)
            },
            _ => refused(r, Nfs4Status::Stale) && dir != ROOT_FILEID,
        }
    }

    /// Lists what is in a directory behind `cookie`.
    pub fn readdir(&mut self, dir: Fileid4, cookie: u64, max_entries: usize) -> (r: FsStep)
        requires
            old(self).wf(),
        ensures
            final(self).wf(),
            final(self).has_begun_readdir(old(self), dir, cookie, max_entries, r),
    {
        Self::readdir_at(self.find_path(dir), cookie, max_entries)
    }

    /// Lists a directory, with the path that was found for it.
    pub fn readdir_at(found: Option<String>, cookie: u64, max_entries: usize) -> (r: FsStep)
        ensures
            match found {
                None => refused(r, Nfs4Status::Stale),
                Some(path) => asked(
                    r,
                    FsTask::Readdir { path, cookie, max_entries },
                    Request::List { path },
                ),
            },
    {
        match found {
            Some(path) => FsStep::Ask {
                task: FsTask::Readdir { path: path.clone(), cookie, max_entries },
                request: Request::List { path },
            },
            None => refuse(Nfs4Status::Stale),
        }
    }

    /// What a list comes to that the storage gave: those of its entries that are wanted, in order,
    /// and whether there are no more. Their paths are noted.
    pub open spec fn has_got_list(
        &self,
        before: &Self,
        dir: Seq<char>,
        cookie: u64,
        max: nat,
        reply: Reply,
        r: FsStep,
    ) -> bool {
        match reply {
            Reply::Entries(list) => exists|order: Seq<int>| #[trigger]
                in_order(list@, dir, order) && self.has_listed(
                    before,
                    list@,
                    dir,
                    order,
                    cookie,
                    max,
                    r,
                ),
            _ => self.unchanged(before) && refused(r, failure_of(reply)),
        }
    }

    /// What a list comes to whose order is known.
    pub open spec fn has_listed(
        &self,
        before: &Self,
        list: Seq<FileStatus>,
        dir: Seq<char>,
        order: Seq<int>,
        cookie: u64,
        max: nat,
        r: FsStep,
    ) -> bool {
        let picks = picked(list, dir, order, cookie, max);
        &&& self.same_config(before)
        &&& self.same_files(before)
        &&& self.statuses() == before.statuses()
        &&& self.contents() == before.contents()
        &&& self.path_cache.root_id == before.path_cache.root_id
        &&& self.path_cache.paths() == noted_paths(before.path_cache.paths(), list, dir, picks)
        &&& self.path_cache.ids() == noted_ids(before.path_cache.ids(), list, dir, picks)
        &&& r matches FsStep::Done { result: Ok(FsAnswer::Entries { entries, end }) }
        &&& entries@.len() == picks.len()
        &&& forall|i: int|
            0 <= i < picks.len() ==> (#[trigger] entries@[i]).is_of(
                list[picks[i]],
                entry_id(list, dir, picks[i]),
            )
        &&& end == (picks.len() < max)
    }

    fn got_list(
        &mut self,
        path: String,
        cookie: u64,
        max_entries: usize,
        reply: Reply,
    ) -> (r: FsStep)
        requires
            old(self).wf(),
        ensures
            final(self).wf(),
            final(self).has_got_list(old(self), path@, cookie, max_entries as nat, reply, r),
    {
        let list = match reply {
            Reply::Entries(list) => list,
            _ => {
                return refuse_reply(reply);
            },
        };
        let mut pairs: Vec<(u64, usize)> = Vec::new();
        let mut i: usize = 0;
        while i < list.len()
            invariant
                i <= list@.len(),
                pairs@.len() == i,
                forall|j: int|
                    0 <= j < i ==> (#[trigger] pairs@[j]).1 == j && pairs@[j].0 == entry_id(
                        list@,
                        path@,
                        j,
                    ),
            decreases list.len() - i,
        {
            let child = build_child_path(path.as_str(), list[i].name.as_str());
            pairs.push((get_fileid_from_status(&list[i], child.as_str()), i));
            i = i + 1;
        }
        let ghost o = pairs@;
        sort_pairs(&mut pairs);
        let ghost order = Seq::new(pairs@.len(), |k: int| pairs@[k].1 as int);
        proof {
            order_is_complete(pairs@, o, list@, path@);
        }
        let ghost before = *self;
        let mut entries: Vec<DirEntry> = Vec::new();
        let mut k: usize = 0;
        assert(order.take(0) =~= Seq::<int>::empty());
        while k < pairs.len()
            invariant
                k <= pairs@.len(),
                pairs@.len() == list@.len(),
                order == Seq::new(pairs@.len(), |k: int| pairs@[k].1 as int),
                in_order(list@, path@, order),
                before == *old(self),
                self.wf(),
                before.wf(),
                self.has_listed(
                    &before,
                    list@,
                    path@,
                    order.take(k as int),
                    cookie,
                    max_entries as nat,
                    FsStep::Done {
                        result: Ok(
                            FsAnswer::Entries {
                                entries,
                                end: entries@.len() < max_entries,
                            },
                        ),
                    },
                ),
            decreases pairs.len() - k,
        {
            let n: usize = pairs[k].1;
            let ghost done = order.take(k as int);
            let ghost picks = picked(list@, path@, done, cookie, max_entries as nat);
            proof {
                assert(order[k as int] == n);
                assert(order.take(k + 1).drop_last() =~= done);
                assert(order.take(k + 1).last() == n);
            }
            let status = &list[n];
            let child = build_child_path(path.as_str(), status.name.as_str());
            let fileid: u64 = get_fileid_from_status(status, child.as_str());
            if entries.len() < max_entries && fileid > cookie {
                self.cache_path(fileid, child);
                let mut seen = status.clone();
                seen.id = #[verifier::truncate] (fileid as i64);
                let ghost old_entries = entries@;
                entries.push(DirEntry { fileid, name: status.name.clone(), status: seen });
                proof {
                    let more = picks.push(n as int);
                    assert(more.drop_last() =~= picks);
                    assert forall|m: int| 0 <= m < more.len() implies (
                    #[trigger] entries@[m]).is_of(
                        list@[more[m]],
                        entry_id(list@, path@, more[m]),
                    ) by {
                        if m < picks.len() {
                            assert(entries@[m] == old_entries[m]);
                        }
                    }
                }
            }
            k = k + 1;
        }
        assert(order.take(k as int) =~= order);
        let end = entries.len() < max_entries;
        answer(FsAnswer::Entries { entries, end })
    }

    // -----------------------------------------------------------------------
    // All calls
    // -----------------------------------------------------------------------

    /// How a call begins.
    pub open spec fn has_begun(&self, before: &Self, call: FsCall, r: FsStep) -> bool {
        match call {
            FsCall::Status { fileid } => self.has_begun_status(
                before,
                fileid,
                StatusFor::Itself,
                r,
            ),
            FsCall::Lookup { parent, name } => self.has_begun_lookup(before, parent, name@, r),
            FsCall::Readdir { dir, cookie, max_entries } => self.has_begun_readdir(
                before,
                dir,
                cookie,
                max_entries,
                r,
            ),
            FsCall::CreateFile { parent, name } => self.has_begun_create(before, parent, name@, r),
            FsCall::Mkdir { parent, name } => self.has_begun_mkdir(before, parent, name@, r),
            FsCall::Remove { parent, name } => self.has_begun_remove(before, parent, name@, r),
            FsCall::Rename { from, from_name, to, to_name } => self.has_begun_rename(
                before,
                from,
                from_name@,
                to,
                to_name@,
                r,
            ),
            FsCall::Symlink { parent, name, target } => self.has_begun_symlink(
                before,
                parent,
                name@,
                target@,
                r,
            ),
            FsCall::Readlink { fileid } => self.has_begun_status(
                before,
                fileid,
                StatusFor::Readlink,
                r,
            ),
            FsCall::Link { fileid, parent, name } => self.has_begun_link(
                before,
                fileid,
                parent,
                name@,
                r,
            ),
            FsCall::Open { fileid, access } => self.has_begun_open(before, fileid, access, r),
            FsCall::Reopen { fileid, access, add_ref } => self.has_begun_reopen(
                before,
                fileid,
                access,
                add_ref,
                r,
            ),
            FsCall::Close { fileid } => self.has_begun_close(before, fileid, r),
            FsCall::Read { fileid, offset, count } => self.has_begun_read(
                before,
                fileid,
                offset,
                count,
                r,
            ),
            FsCall::Write { fileid, offset, data } => self.has_begun_write(
                before,
                fileid,
                offset,
                data,
                r,
            ),
            FsCall::ReadOpen { fileid, offset, count } => self.has_begun_read_open(
                before,
                fileid,
                offset,
                count,
                r,
            ),
            FsCall::WriteOpen { fileid, offset, data, sync } => self.has_begun_write_open(
                before,
                fileid,
                offset,
                data,
                sync,
                r,
            ),
            FsCall::WriterPos { fileid } => self.has_begun_pos(before, fileid, r),
            FsCall::Commit { fileid } => self.has_begun_commit(before, fileid, r),
            FsCall::Setattr { fileid, set } => self.has_begun_setattr(before, fileid, set, r),
        }
    }

    /// Begins a call.
    pub fn begin(&mut self, call: FsCall) -> (r: FsStep)
        requires
            old(self).wf(),
        ensures
            final(self).wf(),
            final(self).has_begun(old(self), call, r),
    {
        match call {
            FsCall::Status { fileid } => self.get_status(fileid),
            FsCall::Lookup { parent, name } => self.lookup(parent, name.as_str()),
            FsCall::Readdir { dir, cookie, max_entries } => self.readdir(dir, cookie, max_entries),
            FsCall::CreateFile { parent, name } => self.create_file(parent, name.as_str()),
            FsCall::Mkdir { parent, name } => self.mkdir(parent, name.as_str()),
            FsCall::Remove { parent, name } => self.remove(parent, name.as_str()),
            FsCall::Rename { from, from_name, to, to_name } => self.rename(
                from,
                from_name.as_str(),
                to,
                to_name.as_str(),
            ),
            FsCall::Symlink { parent, name, target } => self.symlink(
                parent,
                name.as_str(),
                target.as_str(),
            ),
            FsCall::Readlink { fileid } => self.readlink(fileid),
            FsCall::Link { fileid, parent, name } => self.link(fileid, parent, name.as_str()),
            FsCall::Open { fileid, access } => self.open_file(fileid, access),
            FsCall::Reopen { fileid, access, add_ref } => self.reopen_file_ex(
                fileid,
                access,
                add_ref,
            ),
            FsCall::Close { fileid } => self.close_file(fileid),
            FsCall::Read { fileid, offset, count } => self.read(fileid, offset, count),
            FsCall::Write { fileid, offset, data } => self.write(fileid, offset, data),
            FsCall::ReadOpen { fileid, offset, count } => self.read_open(fileid, offset, count),
            FsCall::WriteOpen { fileid, offset, data, sync } => self.write_open(
                fileid,
                offset,
                data,
                sync,
            ),
            FsCall::WriterPos { fileid } => self.writer_pos(fileid),
            FsCall::Commit { fileid } => self.commit(fileid),
            FsCall::Setattr { fileid, set } => self.setattr(fileid, set),
        }
    }

    /// How a call goes on that waited for an answer from the storage.
    pub open spec fn has_resumed(
        &self,
        before: &Self,
        task: FsTask,
        reply: Reply,
        r: FsStep,
    ) -> bool {
        match task {
            FsTask::Status { fileid, purpose } => self.has_got_status(
                before,
                fileid,
                purpose,
                reply,
                r,
            ),
            FsTask::StatusPos { fileid, status, purpose } => self.has_got_pos(
                before,
                fileid,
                status,
                purpose,
                reply,
                r,
            ),
            FsTask::Lookup { path } => self.has_got_lookup(before, path@, reply, r),
            FsTask::Readdir { path, cookie, max_entries } => self.has_got_list(
                before,
                path@,
                cookie,
                max_entries as nat,
                reply,
                r,
            ),
            FsTask::CreateCheck { parent, path } => self.has_checked_create(
                before,
                parent,
                path,
                reply,
                r,
            ),
            FsTask::Making { parent, path } => self.has_made(before, parent, path, reply, r),
            FsTask::Made { parent, path } => self.has_got_made(before, parent, path@, reply, r),
            FsTask::RemoveCheck { parent, path } => self.has_checked_remove(
                before,
                parent,
                path,
                reply,
                r,
            ),
            FsTask::Removing { parent } => self.has_removed(before, parent, reply, r),
            FsTask::RenameFrom { from, to, from_path, to_path } => self.has_got_source(
                before,
                from,
                to,
                from_path,
                to_path,
                reply,
                r,
            ),
            FsTask::RenameTo { from, to, from_path, to_path, old_id } => self.has_got_target(
                before,
                from,
                to,
                from_path,
                to_path,
                old_id,
                reply,
                r,
            ),
            FsTask::Renaming { from, to, from_path, to_path, old_id } => self.has_moved(
                before,
                from,
                to,
                from_path,
                to_path,
                old_id,
                reply,
                r,
            ),
            FsTask::Renamed { from, to, from_path, to_path, old_id } => self.has_got_moved(
                before,
                from,
                to,
                from_path@,
                to_path@,
                old_id,
                reply,
                r,
            ),
            FsTask::Linking { fileid, parent, from_path, to_path } => self.has_linked(
                before,
                fileid,
                parent,
                from_path,
                to_path,
                reply,
                r,
            ),
            FsTask::Linked { fileid, parent, to_path } => self.has_got_linked(
                before,
                fileid,
                parent,
                to_path@,
                reply,
                r,
            ),
            FsTask::OpenReader { fileid, path, handle, access } => self.has_got_reader(
                before,
                fileid,
                path,
                handle,
                access,
                reply,
                r,
            ),
            FsTask::OpenWriter { fileid, path, handle, access } => self.has_got_writer(
                before,
                fileid,
                path,
                handle,
                access,
                reply,
                r,
            ),
            FsTask::UpgradeReader { fileid, upgrade } => self.has_got_more(
                before,
                fileid,
                upgrade,
                true,
                reply,
                r,
            ),
            FsTask::UpgradeWriter { fileid, upgrade } => self.has_got_more(
                before,
                fileid,
                upgrade,
                false,
                reply,
                r,
            ),
            FsTask::Closing { fileid } => self.has_closed(before, fileid, reply, r),
            FsTask::ReadLen { handle, offset, count, close } => self.has_got_len(
                before,
                handle,
                offset,
                count,
                close,
                reply,
                r,
            ),
            FsTask::ReadData { handle, offset, count, len, close } => self.has_got_data(
                before,
                handle,
                offset,
                count,
                len,
                close,
                reply,
                r,
            ),
            FsTask::ReadClose { data, eof } => self.unchanged(before) && match reply {
                Reply::Done => answered(r, FsAnswer::Data { data, eof }),
                _ => refused(r, failure_of(reply)),
            },
            FsTask::WriteLen { fileid, handle, offset, data } => self.has_got_write_len(
                before,
                fileid,
                handle,
                offset,
                data,
                reply,
                r,
            ),
            FsTask::WriteExtend { fileid, handle, offset, data } => self.has_extended(
                before,
                fileid,
                handle,
                offset,
                data,
                reply,
                r,
            ),
            FsTask::WriteData { fileid, handle, count } => self.has_written(
                before,
                fileid,
                handle,
                count,
                reply,
                r,
            ),
            FsTask::WriteClose { fileid, count } => self.has_closed_written(
                before,
                fileid,
                count,
                reply,
                r,
            ),
            FsTask::WriteOpen => self.unchanged(before) && match reply {
                Reply::Written { count, synced } => answered(
                    r,
                    FsAnswer::Written { count, synced },
                ),
                _ => refused(r, failure_of(reply)),
            },
            FsTask::WriterPos => self.unchanged(before) && match reply {
                Reply::Position(pos) => answered(r, FsAnswer::Position(pos)),
                _ => refused(r, failure_of(reply)),
            },
            FsTask::Committing => self.unchanged(before) && match reply {
                Reply::Done => answered(r, FsAnswer::Done),
                _ => refused(r, Nfs4Status::Io),
            },
            FsTask::SetOpenWriter { fileid, path, handle, set } => self.has_opened_to_resize(
                before,
                fileid,
                path,
                handle,
                set,
                reply,
                r,
            ),
            FsTask::SetResize { fileid, path, handle, set, close } => self.has_resized(
                before,
                fileid,
                path,
                handle,
                set,
                close,
                reply,
                r,
            ),
            FsTask::SetClose { fileid, path, set } => self.has_closed_resized(
                before,
                fileid,
                path,
                set,
                reply,
                r,
            ),
            FsTask::SetNames { fileid, path, mode } => self.unchanged(before) && match reply {
                Reply::Names { owner, group } => Self::setting(
                    fileid,
                    path,
                    mode,
                    owner,
                    group,
                    r,
                ),
                _ => refused(r, failure_of(reply)),
            },
            FsTask::Setting { fileid } => self.unchanged(before) && match reply {
                Reply::Done => r == FsStep::Next { call: FsCall::Status { fileid } },
                _ => refused(r, failure_of(reply)),
            },
        }
    }

    /// Goes on with a call that waited for an answer from the storage.
    pub fn resume(&mut self, task: FsTask, reply: Reply) -> (r: FsStep)
        requires
            old(self).wf(),
        ensures
            final(self).wf(),
            final(self).has_resumed(old(self), task, reply, r),
    {
        match task {
            FsTask::Status { fileid, purpose } => self.got_status(fileid, purpose, reply),
            FsTask::StatusPos { fileid, status, purpose } => self.got_pos(
                fileid,
                status,
                purpose,
                reply,
            ),
            FsTask::Lookup { path } => self.got_lookup(path, reply),
            FsTask::Readdir { path, cookie, max_entries } => self.got_list(
                path,
                cookie,
                max_entries,
                reply,
            ),
            FsTask::CreateCheck { parent, path } => self.checked_create(parent, path, reply),
            FsTask::Making { parent, path } => self.made(parent, path, reply),
            FsTask::Made { parent, path } => self.got_made(parent, path, reply),
            FsTask::RemoveCheck { parent, path } => self.checked_remove(parent, path, reply),
            FsTask::Removing { parent } => self.removed(parent, reply),
            FsTask::RenameFrom { from, to, from_path, to_path } => self.got_source(
                from,
                to,
                from_path,
                to_path,
                reply,
            ),
            FsTask::RenameTo { from, to, from_path, to_path, old_id } => self.got_target(
                from,
                to,
                from_path,
                to_path,
                old_id,
                reply,
            ),
            FsTask::Renaming { from, to, from_path, to_path, old_id } => self.moved(
                from,
                to,
                from_path,
                to_path,
                old_id,
                reply,
            ),
            FsTask::Renamed { from, to, from_path, to_path, old_id } => self.got_moved(
                from,
                to,
                from_path,
                to_path,
                old_id,
                reply,
            ),
            FsTask::Linking { fileid, parent, from_path, to_path } => self.linked(
                fileid,
                parent,
                from_path,
                to_path,
                reply,
            ),
            FsTask::Linked { fileid, parent, to_path } => self.got_linked(
                fileid,
                parent,
                to_path,
                reply,
            ),
            FsTask::OpenReader { fileid, path, handle, access } => self.got_reader(
                fileid,
                path,
                handle,
                access,
                reply,
            ),
            FsTask::OpenWriter { fileid, path, handle, access } => self.got_writer(
                fileid,
                path,
                handle,
                access,
                reply,
            ),
            FsTask::UpgradeReader { fileid, upgrade } => self.got_more(
                fileid,
                upgrade,
                true,
                reply,
            ),
            FsTask::UpgradeWriter { fileid, upgrade } => self.got_more(
                fileid,
                upgrade,
                false,
                reply,
            ),
            FsTask::Closing { fileid } => self.closed(fileid, reply),
            FsTask::ReadLen { handle, offset, count, close } => self.got_len(
                handle,
                offset,
                count,
                close,
                reply,
            ),
            FsTask::ReadData { handle, offset, count, len, close } => self.got_data(
                handle,
                offset,
                count,
                len,
                close,
                reply,
            ),
            FsTask::ReadClose { data, eof } => match reply {
                Reply::Done => answer(FsAnswer::Data { data, eof }),
                _ => refuse_reply(reply),
            },
            FsTask::WriteLen { fileid, handle, offset, data } => self.got_write_len(
                fileid,
                handle,
                offset,
                data,
                reply,
            ),
            FsTask::WriteExtend { fileid, handle, offset, data } => self.extended(
                fileid,
                handle,
                offset,
                data,
                reply,
            ),
            FsTask::WriteData { fileid, handle, count } => self.written(
                fileid,
                handle,
                count,
                reply,
            ),
            FsTask::WriteClose { fileid, count } => self.closed_written(fileid, count, reply),
            FsTask::WriteOpen => match reply {
                Reply::Written { count, synced } => answer(FsAnswer::Written { count, synced }),
                _ => refuse_reply(reply),
            },
            FsTask::WriterPos => match reply {
                Reply::Position(pos) => answer(FsAnswer::Position(pos)),
                _ => refuse_reply(reply),
            },
            FsTask::Committing => match reply {
                Reply::Done => answer(FsAnswer::Done),
                _ => refuse(Nfs4Status::Io),
            },
            FsTask::SetOpenWriter { fileid, path, handle, set } => self.opened_to_resize(
                fileid,
                path,
                handle,
                set,
                reply,
            ),
            FsTask::SetResize { fileid, path, handle, set, close } => self.resized(
                fileid,
                path,
                handle,
                set,
                close,
                reply,
            ),
            FsTask::SetClose { fileid, path, set } => self.closed_resized(
                fileid,
                path,
                set,
                reply,
            ),
            FsTask::SetNames { fileid, path, mode } => match reply {
                Reply::Names { owner, group } => Self::set(fileid, path, mode, owner, group),
                _ => refuse_reply(reply),
            },
            FsTask::Setting { fileid } => match reply {
                Reply::Done => FsStep::Next { call: FsCall::Status { fileid } },
                _ => refuse_reply(reply),
            },
        }
    }
}

// ---------------------------------------------------------------------------
// Laws
// ---------------------------------------------------------------------------

/// Whether a call changes files that are not open.
pub open spec fn changes_files(call: FsCall) -> bool {
    match call {
        FsCall::CreateFile { .. } | FsCall::Mkdir { .. } | FsCall::Remove { .. } | FsCall::Rename {
            ..
        } | FsCall::Symlink { .. } | FsCall::Link { .. } | FsCall::Write { .. } | FsCall::Setattr {
            ..
        } => true,
        _ => false,
    }
}

/// A server that only reads refuses to change files, and asks the storage for nothing.
pub proof fn law_read_only_server_changes_nothing(
    before: Nfs4FileSystem,
    after: Nfs4FileSystem,
    call: FsCall,
    r: FsStep,
)
    requires
        after.has_begun(&before, call, r),
        before.config.read_only,
        changes_files(call),
    ensures
        refused(r, Nfs4Status::Rofs),
        after.unchanged(&before),
{
}

/// What is listed of a directory lies behind the place where the listing began, and there is no
/// more of it than was asked for.
pub proof fn law_listing_goes_on_behind_its_start(
    entries: Seq<FileStatus>,
    dir: Seq<char>,
    order: Seq<int>,
    cookie: u64,
    max: nat,
)
    ensures
        picked(entries, dir, order, cookie, max).len() <= max,
        forall|i: int|
            0 <= i < picked(entries, dir, order, cookie, max).len() ==> entry_id(
                entries,
                dir,
                #[trigger] picked(entries, dir, order, cookie, max)[i],
            ) > cookie,
    decreases order.len(),
{
    if order.len() > 0 {
        law_listing_goes_on_behind_its_start(entries, dir, order.drop_last(), cookie, max);
        let before = picked(entries, dir, order.drop_last(), cookie, max);
        let all = picked(entries, dir, order, cookie, max);
        assert forall|i: int| 0 <= i < all.len() implies entry_id(
            entries,
            dir,
            #[trigger] all[i],
        ) > cookie by {
            if i < before.len() {
                assert(all[i] == before[i]);
            }
        }
    }
}

/// A listing that says that there is no more holds everything that lies behind its start.
pub proof fn law_ended_listing_is_complete(
    entries: Seq<FileStatus>,
    dir: Seq<char>,
    order: Seq<int>,
    cookie: u64,
    max: nat,
    k: int,
)
    requires
        picked(entries, dir, order, cookie, max).len() < max,
        0 <= k < order.len(),
        entry_id(entries, dir, order[k]) > cookie,
    ensures
        picked(entries, dir, order, cookie, max).contains(order[k]),
    decreases order.len(),
{
    let before = picked(entries, dir, order.drop_last(), cookie, max);
    let all = picked(entries, dir, order, cookie, max);
    if k == order.len() - 1 {
        assert(all[all.len() - 1] == order[k]);
    } else {
        assert(before.len() <= all.len());
        assert(order.drop_last()[k] == order[k]);
        law_ended_listing_is_complete(entries, dir, order.drop_last(), cookie, max, k);
        let i = choose|i: int| 0 <= i < before.len() && before[i] == order[k];
        assert(all[i] == order[k]);
    }
}

/// Whether no two entries of a directory have the same number.
pub open spec fn numbers_differ(entries: Seq<FileStatus>, dir: Seq<char>) -> bool {
    forall|a: int, b: int|
        0 <= a < b < entries.len() ==> #[trigger] entry_id(entries, dir, a) != #[trigger] entry_id(
            entries,
            dir,
            b,
        )
}

/// What the parts of a listing hold together, when each part has so many entries as `sizes` says
/// and goes on behind the last entry of the one before, until there is no more.
pub open spec fn listed_in_parts(
    entries: Seq<FileStatus>,
    dir: Seq<char>,
    order: Seq<int>,
    cookie: u64,
    sizes: Seq<nat>,
) -> Seq<int>
    decreases sizes.len(),
{
    if sizes.len() == 0 {
        Seq::empty()
    } else {
        let part = picked(entries, dir, order, cookie, sizes[0]);
        if part.len() < sizes[0] || part.len() == 0 {
            part
        } else {
            part + listed_in_parts(
                entries,
                dir,
                order,
                entry_id(entries, dir, part.last()),
                sizes.skip(1),
            )
        }
    }
}

/// How many entries lie behind `cookie`.
spec fn count_behind(entries: Seq<FileStatus>, dir: Seq<char>, order: Seq<int>, cookie: u64) -> nat
    decreases order.len(),
{
    if order.len() == 0 {
        0
    } else {
        count_behind(entries, dir, order.drop_last(), cookie) + if entry_id(
            entries,
            dir,
            order.last(),
        ) > cookie {
            1nat
        } else {
            0nat
        }
    }
}

proof fn fewer_lie_further_behind(
    entries: Seq<FileStatus>,
    dir: Seq<char>,
    order: Seq<int>,
    cookie: u64,
    later: u64,
)
    requires
        cookie <= later,
    ensures
        count_behind(entries, dir, order, later) <= count_behind(entries, dir, order, cookie),
        count_behind(entries, dir, order, cookie) <= order.len(),
        (exists|i: int|
            0 <= i < order.len() && cookie < #[trigger] entry_id(entries, dir, order[i]) <= later)
            ==> count_behind(entries, dir, order, later) < count_behind(
            entries,
            dir,
            order,
            cookie,
        ),
    decreases order.len(),
{
    if order.len() > 0 {
        let less = order.drop_last();
        fewer_lie_further_behind(entries, dir, less, cookie, later);
        if exists|i: int|
            0 <= i < order.len() && cookie < #[trigger] entry_id(entries, dir, order[i]) <= later {
            let i = choose|i: int|
                0 <= i < order.len() && cookie < #[trigger] entry_id(entries, dir, order[i])
                    <= later;
            if i < less.len() {
                assert(less[i] == order[i]);
                assert(cookie < entry_id(entries, dir, less[i]) <= later);
            }
        }
    }
}

/// The entries of a part, and where they stand in the order.
proof fn picked_in_order(
    entries: Seq<FileStatus>,
    dir: Seq<char>,
    order: Seq<int>,
    cookie: u64,
    max: nat,
)
    requires
        numbers_differ(entries, dir),
        forall|i: int| 0 <= i < order.len() ==> 0 <= #[trigger] order[i] < entries.len(),
        forall|i: int, j: int|
            0 <= i < j < order.len() ==> comes_first(
                entries,
                dir,
                #[trigger] order[i],
                #[trigger] order[j],
            ),
    ensures
        ({
            let part = picked(entries, dir, order, cookie, max);
            &&& forall|i: int| 0 <= i < part.len() ==> order.contains(#[trigger] part[i])
            &&& forall|i: int, j: int|
                0 <= i < j < part.len() ==> entry_id(entries, dir, #[trigger] part[i]) < entry_id(
                    entries,
                    dir,
                    #[trigger] part[j],
                )
            &&& forall|i: int, k: int|
                0 <= i < part.len() && 0 <= k < order.len() && entry_id(
                    entries,
                    dir,
                    #[trigger] order[k],
                ) > cookie && !part.contains(order[k]) ==> entry_id(
                    entries,
                    dir,
                    #[trigger] part[i],
                ) < entry_id(entries, dir, order[k])
            &&& part.len() == 0 && max > 0 ==> forall|k: int|
                0 <= k < order.len() ==> entry_id(entries, dir, #[trigger] order[k]) <= cookie
        }),
    decreases order.len(),
{
    if order.len() > 0 {
        let less = order.drop_last();
        let before = picked(entries, dir, less, cookie, max);
        let part = picked(entries, dir, order, cookie, max);
        assert forall|i: int, j: int| 0 <= i < j < less.len() implies comes_first(
            entries,
            dir,
            #[trigger] less[i],
            #[trigger] less[j],
        ) by {
            assert(comes_first(entries, dir, order[i], order[j]));
        }
        picked_in_order(entries, dir, less, cookie, max);
        let last = order.last();
        assert forall|i: int| 0 <= i < before.len() implies order.contains(#[trigger] before[i])
            && entry_id(entries, dir, before[i]) < entry_id(entries, dir, last) by {
            assert(less.contains(before[i]));
            let k = choose|k: int| 0 <= k < less.len() && less[k] == before[i];
            assert(order[k] == before[i]);
            assert(comes_first(entries, dir, order[k], order[order.len() - 1]));
            let a = order[k];
            if a < last {
                assert(entry_id(entries, dir, a) != entry_id(entries, dir, last));
            } else if last < a {
                assert(entry_id(entries, dir, last) != entry_id(entries, dir, a));
            }
        }
        assert forall|i: int| 0 <= i < part.len() implies order.contains(#[trigger] part[i]) by {
            if i < before.len() {
                assert(part[i] == before[i]);
            } else {
                assert(order[order.len() - 1] == part[i]);
            }
        }
        assert forall|i: int, j: int| 0 <= i < j < part.len() implies entry_id(
            entries,
            dir,
            #[trigger] part[i],
        ) < entry_id(entries, dir, #[trigger] part[j]) by {
            assert(part[i] == before[i]);
            if j < before.len() {
                assert(part[j] == before[j]);
            }
        }
        assert forall|i: int, k: int|
            0 <= i < part.len() && 0 <= k < order.len() && entry_id(
                entries,
                dir,
                #[trigger] order[k],
            ) > cookie && !part.contains(order[k]) implies entry_id(
            entries,
            dir,
            #[trigger] part[i],
        ) < entry_id(entries, dir, order[k]) by {
            if k == order.len() - 1 {
                if part.len() > before.len() {
                    assert(part[part.len() - 1] == order[k]);
                }
                assert(part[i] == before[i]);
            } else {
                assert(less[k] == order[k]);
                if before.contains(less[k]) {
                    let m = choose|m: int| 0 <= m < before.len() && before[m] == less[k];
                    assert(part[m] == order[k]);
                }
                if part.len() > before.len() {
                    law_ended_listing_is_complete(entries, dir, less, cookie, max, k);
                }
                assert(part[i] == before[i]);
            }
        }
        if part.len() == 0 && max > 0 {
            assert forall|k: int| 0 <= k < order.len() implies entry_id(
                entries,
                dir,
                #[trigger] order[k],
            ) <= cookie by {
                if k < less.len() {
                    assert(less[k] == order[k]);
                }
            }
        }
    }
}

/// Where only the first entries of a part have a place, they are a part with so many entries.
pub proof fn law_cut_part_is_a_part(
    entries: Seq<FileStatus>,
    dir: Seq<char>,
    order: Seq<int>,
    cookie: u64,
    max: nat,
    n: nat,
)
    requires
        n <= picked(entries, dir, order, cookie, max).len(),
    ensures
        picked(entries, dir, order, cookie, max).take(n as int) == picked(
            entries,
            dir,
            order,
            cookie,
            n,
        ),
    decreases order.len(),
{
    let part = picked(entries, dir, order, cookie, max);
    if order.len() == 0 {
        assert(part.take(n as int) =~= Seq::empty());
    } else {
        let less = order.drop_last();
        let before = picked(entries, dir, less, cookie, max);
        picked_fits(entries, dir, less, cookie, max);
        if n <= before.len() {
            law_cut_part_is_a_part(entries, dir, less, cookie, max, n);
            assert(part.take(n as int) =~= before.take(n as int));
        } else {
            law_cut_part_is_a_part(entries, dir, less, cookie, max, before.len());
            picked_all_there(entries, dir, less, cookie, max, n);
            assert(before.take(before.len() as int) =~= before);
            assert(part.take(n as int) =~= part);
        }
    }
}

proof fn picked_fits(
    entries: Seq<FileStatus>,
    dir: Seq<char>,
    order: Seq<int>,
    cookie: u64,
    max: nat,
)
    ensures
        picked(entries, dir, order, cookie, max).len() <= max,
    decreases order.len(),
{
    if order.len() > 0 {
        picked_fits(entries, dir, order.drop_last(), cookie, max);
    }
}

/// Two parts that have room for all that there is are the same.
proof fn picked_all_there(
    entries: Seq<FileStatus>,
    dir: Seq<char>,
    order: Seq<int>,
    cookie: u64,
    max: nat,
    n: nat,
)
    requires
        picked(entries, dir, order, cookie, max).len() < n <= max,
    ensures
        picked(entries, dir, order, cookie, max) == picked(entries, dir, order, cookie, n),
    decreases order.len(),
{
    if order.len() > 0 {
        picked_all_there(entries, dir, order.drop_last(), cookie, max, n);
    }
}

/// The parts of a listing hold together each entry that lies behind their start once, however many
/// entries each part has: where a directory stays as it is while it is listed, and no two entries
/// have the same number, nothing is lost and nothing comes twice. As each number is above nothing,
/// a listing from the start on holds all entries.
pub proof fn law_parts_list_each_entry_once(
    entries: Seq<FileStatus>,
    dir: Seq<char>,
    order: Seq<int>,
    cookie: u64,
    sizes: Seq<nat>,
)
    requires
        in_order(entries, dir, order),
        numbers_differ(entries, dir),
        forall|i: int| 0 <= i < sizes.len() ==> #[trigger] sizes[i] > 0,
        sizes.len() > order.len(),
    ensures
        listed_in_parts(entries, dir, order, cookie, sizes).no_duplicates(),
        forall|k: int|
            0 <= k < order.len() ==> (#[trigger] listed_in_parts(
                entries,
                dir,
                order,
                cookie,
                sizes,
            ).contains(order[k]) <==> entry_id(entries, dir, order[k]) > cookie),
        forall|k: int| 0 <= k < entries.len() ==> #[trigger] entry_id(entries, dir, k) > 0,
{
    fewer_lie_further_behind(entries, dir, order, cookie, cookie);
    enough_parts_list_all(entries, dir, order, cookie, sizes);
    assert forall|k: int| 0 <= k < entries.len() implies #[trigger] entry_id(entries, dir, k)
        > 0 by {
        let id = entries[k].id;
        assert(id != 0 ==> (id as u64) != 0) by (bit_vector);
    }
}

proof fn enough_parts_list_all(
    entries: Seq<FileStatus>,
    dir: Seq<char>,
    order: Seq<int>,
    cookie: u64,
    sizes: Seq<nat>,
)
    requires
        in_order(entries, dir, order),
        numbers_differ(entries, dir),
        forall|i: int| 0 <= i < sizes.len() ==> #[trigger] sizes[i] > 0,
        sizes.len() > count_behind(entries, dir, order, cookie),
    ensures
        ({
            let all = listed_in_parts(entries, dir, order, cookie, sizes);
            &&& all.no_duplicates()
            &&& forall|i: int|
                0 <= i < all.len() ==> order.contains(#[trigger] all[i]) && entry_id(
                    entries,
                    dir,
                    all[i],
                ) > cookie
            &&& forall|k: int|
                0 <= k < order.len() && entry_id(entries, dir, #[trigger] order[k]) > cookie
                    ==> all.contains(order[k])
        }),
        forall|k: int|
            0 <= k < order.len() ==> (#[trigger] listed_in_parts(
                entries,
                dir,
                order,
                cookie,
                sizes,
            ).contains(order[k]) <==> entry_id(entries, dir, order[k]) > cookie),
    decreases sizes.len(),
{
    let max = sizes[0];
    let part = picked(entries, dir, order, cookie, max);
    let all = listed_in_parts(entries, dir, order, cookie, sizes);
    picked_in_order(entries, dir, order, cookie, max);
    law_listing_goes_on_behind_its_start(entries, dir, order, cookie, max);
    assert(part.no_duplicates()) by {
        assert forall|i: int, j: int|
            0 <= i < part.len() && 0 <= j < part.len() && i != j implies part[i] != part[j] by {
            if i < j {
                assert(entry_id(entries, dir, part[i]) < entry_id(entries, dir, part[j]));
            } else {
                assert(entry_id(entries, dir, part[j]) < entry_id(entries, dir, part[i]));
            }
        }
    }
    if part.len() < max || part.len() == 0 {
        assert forall|k: int|
            0 <= k < order.len() && entry_id(entries, dir, #[trigger] order[k])
                > cookie implies all.contains(order[k]) by {
            law_ended_listing_is_complete(entries, dir, order, cookie, max, k);
        }
    } else {
        let last = part.last();
        let next = entry_id(entries, dir, last);
        assert(order.contains(part[part.len() - 1]));
        let at = choose|at: int| 0 <= at < order.len() && order[at] == last;
        assert(cookie < entry_id(entries, dir, order[at]) <= next);
        fewer_lie_further_behind(entries, dir, order, cookie, next);
        assert forall|i: int| 0 <= i < sizes.skip(1).len() implies #[trigger] sizes.skip(1)[i]
            > 0 by {
            assert(sizes[i + 1] > 0);
        }
        enough_parts_list_all(entries, dir, order, next, sizes.skip(1));
        let rest = listed_in_parts(entries, dir, order, next, sizes.skip(1));
        assert(all == part + rest);
        assert forall|i: int| 0 <= i < part.len() implies entry_id(
            entries,
            dir,
            #[trigger] part[i],
        ) <= next by {
            if i < part.len() - 1 {
                assert(entry_id(entries, dir, part[i]) < entry_id(
                    entries,
                    dir,
                    part[part.len() - 1],
                ));
            }
        }
        assert(all.no_duplicates()) by {
            assert forall|i: int, j: int|
                0 <= i < j < all.len() implies all[i] != all[j] by {
                if j < part.len() {
                    assert(all[i] == part[i] && all[j] == part[j]);
                } else if i < part.len() {
                    assert(all[i] == part[i] && all[j] == rest[j - part.len()]);
                } else {
                    assert(all[i] == rest[i - part.len()] && all[j] == rest[j - part.len()]);
                }
            }
        }
        assert forall|i: int| 0 <= i < all.len() implies order.contains(#[trigger] all[i])
            && entry_id(entries, dir, all[i]) > cookie by {
            if i < part.len() {
                assert(all[i] == part[i]);
            } else {
                assert(all[i] == rest[i - part.len()]);
            }
        }
        assert forall|k: int|
            0 <= k < order.len() && entry_id(entries, dir, #[trigger] order[k])
                > cookie implies all.contains(order[k]) by {
            if part.contains(order[k]) {
                let i = choose|i: int| 0 <= i < part.len() && part[i] == order[k];
                assert(all[i] == order[k]);
            } else {
                assert(entry_id(entries, dir, part[part.len() - 1]) < entry_id(
                    entries,
                    dir,
                    order[k],
                ));
                assert(rest.contains(order[k]));
                let i = choose|i: int| 0 <= i < rest.len() && rest[i] == order[k];
                assert(all[part.len() + i] == order[k]);
            }
        }
    }
    assert forall|k: int| 0 <= k < order.len() implies (#[trigger] listed_in_parts(
        entries,
        dir,
        order,
        cookie,
        sizes,
    ).contains(order[k]) <==> entry_id(entries, dir, order[k]) > cookie) by {
        if all.contains(order[k]) {
            let i = choose|i: int| 0 <= i < all.len() && all[i] == order[k];
            assert(entry_id(entries, dir, all[i]) > cookie);
        }
    }
}

} // verus!
