//! What the calls on the file system come to, from the call to what the storage is asked and what
//! is answered.

use crate::attrs::SetAttrs;
use crate::cache::{kept_ids, kept_paths};
use crate::error::Nfs4Status;
use crate::fs::{path_fileid, Nfs4FileSystem};
use crate::storage::{
    comes_first, entry_id, in_order, law_ended_listing_is_complete,
    law_listing_goes_on_behind_its_start, picked, DirEntry, FsAnswer, FsCall, FsStep, FsTask, Reply,
    Request,
};
use crate::types::{FileStatus, FileType, Fileid4};
use vstd::prelude::*;

verus! {

/// The path that is remembered of a file. That of the root is always known.
pub open spec fn path_known(fs: Nfs4FileSystem, fileid: Fileid4) -> Option<Seq<char>> {
    if fileid == 1000 {
        Some(seq!['/'])
    } else if kept_paths(fs.path_cache.id_to_path).contains_key(fileid) {
        Some(kept_paths(fs.path_cache.id_to_path)[fileid])
    } else {
        None
    }
}

/// The path of a name in a directory whose path is remembered.
pub open spec fn entry_path(fs: Nfs4FileSystem, dir: Fileid4, name: Seq<char>) -> Option<
    Seq<char>,
> {
    match path_known(fs, dir) {
        None => None,
        Some(d) => Some(
            if d == seq!['/'] {
                d + name
            } else {
                d + seq!['/'] + name
            },
        ),
    }
}

/// The number of a file: that which the storage gives, or one made from its path where it gives
/// none.
pub open spec fn number_of(status: FileStatus, path: Seq<char>) -> Fileid4 {
    if status.id != 0 {
        status.id as u64
    } else {
        path_fileid(path)
    }
}

/// Whether a call is over with the given failure.
pub open spec fn turned_down(r: FsStep, status: Nfs4Status) -> bool {
    r is Done && r->result is Err && r->result->Err_0.status == status
}

/// Whether a call is over with the given answer.
pub open spec fn comes_to(r: FsStep, answer: FsAnswer) -> bool {
    r == (FsStep::Done { result: Ok(answer) })
}

/// Whether the storage is asked for the status of what lies at a path.
pub open spec fn asks_status(r: FsStep, path: Seq<char>) -> bool {
    &&& r is Ask
    &&& r->request is Status
    &&& r->request->Status_path@ == path
}

/// Whether a file is found under its path, and its path under its number.
pub open spec fn found_at(fs: Nfs4FileSystem, fileid: Fileid4, path: Seq<char>) -> bool {
    fileid != 1000 ==> {
        &&& path_known(fs, fileid) == Some(path)
        &&& kept_ids(fs.path_cache.path_to_id).contains_key(path)
        &&& kept_ids(fs.path_cache.path_to_id)[path] == fileid
    }
}

proof fn entry_is_child(fs: Nfs4FileSystem, dir: Fileid4, name: Seq<char>)
    requires
        fs.wf(),
    ensures
        path_known(fs, dir) == fs.path_cache.path_of(dir),
        path_known(fs, dir) is Some ==> entry_path(fs, dir, name) == Some(
            crate::text::child_path(path_known(fs, dir)->Some_0, name),
        ),
{
}

/// A name is made in the directory that was named, under the name that was given, and only where
/// nothing lies there yet. What was made is answered with the number and the status that the
/// storage gives it, and is found from then on.
pub proof fn law_file_is_made_where_it_was_named(
    s0: Nfs4FileSystem,
    parent: Fileid4,
    name: String,
    s1: Nfs4FileSystem,
    r1: FsStep,
    there: Reply,
    s2: Nfs4FileSystem,
    r2: FsStep,
    made: Reply,
    s3: Nfs4FileSystem,
    r3: FsStep,
    status: FileStatus,
    s4: Nfs4FileSystem,
    r4: FsStep,
)
    requires
        s0.wf(),
        !s0.config.read_only,
        s1.has_begun(&s0, FsCall::CreateFile { parent, name }, r1),
        r1 is Ask ==> s2.has_resumed(&s1, r1->task, there, r2),
        r1 is Ask && r2 is Ask ==> s3.has_resumed(&s2, r2->task, made, r3),
        r1 is Ask && r2 is Ask && r3 is Ask ==> s4.has_resumed(
            &s3,
            r3->task,
            Reply::Status(status),
            r4,
        ),
    ensures
        r1 is Ask || turned_down(r1, Nfs4Status::Stale) && parent != 1000,
        r1 is Ask ==> ({
            &&& entry_path(s0, parent, name@) is Some
            &&& ({
                let path = entry_path(s0, parent, name@)->Some_0;
                &&& asks_status(r1, path)
                &&& there is Status ==> turned_down(r2, Nfs4Status::Exist)
                &&& !(there is Status) ==> {
                    &&& r2 is Ask
                    &&& r2->request is Create
                    &&& r2->request->Create_path@ == path
                    &&& made is Done ==> {
                        &&& asks_status(r3, path)
                        &&& comes_to(
                            r4,
                            FsAnswer::Found { fileid: number_of(status, path), status },
                        )
                        &&& found_at(s4, number_of(status, path), path)
                        &&& !s4.statuses().contains_key(parent)
                    }
                }
            })
        }),
{
    entry_is_child(s0, parent, name@);
}

/// A directory is made in the directory that was named, under the name that was given.
pub proof fn law_directory_is_made_where_it_was_named(
    s0: Nfs4FileSystem,
    parent: Fileid4,
    name: String,
    s1: Nfs4FileSystem,
    r1: FsStep,
    made: Reply,
    s2: Nfs4FileSystem,
    r2: FsStep,
    status: FileStatus,
    s3: Nfs4FileSystem,
    r3: FsStep,
)
    requires
        s0.wf(),
        !s0.config.read_only,
        s1.has_begun(&s0, FsCall::Mkdir { parent, name }, r1),
        r1 is Ask ==> s2.has_resumed(&s1, r1->task, made, r2),
        r1 is Ask && r2 is Ask ==> s3.has_resumed(&s2, r2->task, Reply::Status(status), r3),
    ensures
        r1 is Ask || turned_down(r1, Nfs4Status::Stale) && parent != 1000,
        r1 is Ask ==> ({
            &&& entry_path(s0, parent, name@) is Some
            &&& ({
                let path = entry_path(s0, parent, name@)->Some_0;
                &&& r1->request is MakeDir
                &&& r1->request->MakeDir_path@ == path
                &&& made is Done ==> {
                    &&& asks_status(r2, path)
                    &&& comes_to(r3, FsAnswer::Found { fileid: number_of(status, path), status })
                    &&& found_at(s3, number_of(status, path), path)
                    &&& !s3.statuses().contains_key(parent)
                }
            })
        }),
{
    entry_is_child(s0, parent, name@);
}

/// A link is made in the directory that was named, under the name that was given, and leads to
/// what was given.
pub proof fn law_link_is_made_where_it_was_named(
    s0: Nfs4FileSystem,
    parent: Fileid4,
    name: String,
    target: String,
    s1: Nfs4FileSystem,
    r1: FsStep,
    made: Reply,
    s2: Nfs4FileSystem,
    r2: FsStep,
    status: FileStatus,
    s3: Nfs4FileSystem,
    r3: FsStep,
)
    requires
        s0.wf(),
        !s0.config.read_only,
        s1.has_begun(&s0, FsCall::Symlink { parent, name, target }, r1),
        r1 is Ask ==> s2.has_resumed(&s1, r1->task, made, r2),
        r1 is Ask && r2 is Ask ==> s3.has_resumed(&s2, r2->task, Reply::Status(status), r3),
    ensures
        r1 is Ask || turned_down(r1, Nfs4Status::Stale) && parent != 1000,
        r1 is Ask ==> ({
            &&& entry_path(s0, parent, name@) is Some
            &&& ({
                let path = entry_path(s0, parent, name@)->Some_0;
                &&& r1->request is Symlink
                &&& r1->request->Symlink_path@ == path
                &&& r1->request->Symlink_target@ == target@
                &&& made is Done ==> {
                    &&& asks_status(r2, path)
                    &&& comes_to(r3, FsAnswer::Found { fileid: number_of(status, path), status })
                    &&& found_at(s3, number_of(status, path), path)
                    &&& !s3.statuses().contains_key(parent)
                }
            })
        }),
{
    entry_is_child(s0, parent, name@);
}

/// What is removed is what lies under the name in the directory. Where it is open, what was opened
/// is given up, and nothing is remembered of it nor of how the directory was.
pub proof fn law_removed_file_is_the_one_named(
    s0: Nfs4FileSystem,
    parent: Fileid4,
    name: String,
    s1: Nfs4FileSystem,
    r1: FsStep,
    there: Reply,
    s2: Nfs4FileSystem,
    r2: FsStep,
    gone: Reply,
    s3: Nfs4FileSystem,
    r3: FsStep,
)
    requires
        s0.wf(),
        !s0.config.read_only,
        s1.has_begun(&s0, FsCall::Remove { parent, name }, r1),
        r1 is Ask ==> s2.has_resumed(&s1, r1->task, there, r2),
        r1 is Ask && r2 is Ask ==> s3.has_resumed(&s2, r2->task, gone, r3),
    ensures
        r1 is Ask || turned_down(r1, Nfs4Status::Stale) && parent != 1000,
        r1 is Ask ==> ({
            &&& entry_path(s0, parent, name@) is Some
            &&& ({
                let path = entry_path(s0, parent, name@)->Some_0;
                let fileid = number_of(there->Status_0, path);
                &&& asks_status(r1, path)
                &&& r2 is Ask
                &&& r2->request is Delete
                &&& r2->request->Delete_path@ == path
                &&& there is Status ==> {
                    &&& !s2.open_files@.contains_key(fileid)
                    &&& !s2.statuses().contains_key(fileid)
                    &&& !kept_paths(s2.path_cache.id_to_path).contains_key(fileid)
                    &&& forall|f: u64| #[trigger]
                        s2.open_files@.contains_key(f) <==> f != fileid
                            && s0.open_files@.contains_key(f)
                    &&& r2->request->forget is Some <==> s0.open_files@.contains_key(fileid)
                    &&& r2->request->forget is Some ==> r2->request->forget
                        == Some(s0.open_files@[fileid].handle)
                }
                &&& !(there is Status) ==> r2->request->forget is None
                &&& gone is Done ==> comes_to(r3, FsAnswer::Done)
                    && !s3.statuses().contains_key(parent)
            })
        }),
{
    entry_is_child(s0, parent, name@);
}

/// What is renamed is what lies under the first name in the first directory, and it comes to lie
/// under the second name in the second. It is found there from then on, where it is open it stays
/// so, and how the two directories and the file were is forgotten.
#[verifier::rlimit(40)]
pub proof fn law_renamed_file_comes_to_lie_where_it_was_sent(
    s0: Nfs4FileSystem,
    from: Fileid4,
    from_name: String,
    to: Fileid4,
    to_name: String,
    s1: Nfs4FileSystem,
    r1: FsStep,
    source: FileStatus,
    s2: Nfs4FileSystem,
    r2: FsStep,
    there: Reply,
    s3: Nfs4FileSystem,
    r3: FsStep,
    s4: Nfs4FileSystem,
    r4: FsStep,
    status: FileStatus,
    s5: Nfs4FileSystem,
    r5: FsStep,
)
    requires
        s0.wf(),
        !s0.config.read_only,
        s1.has_begun(&s0, FsCall::Rename { from, from_name, to, to_name }, r1),
        r1 is Ask ==> s2.has_resumed(&s1, r1->task, Reply::Status(source), r2),
        r1 is Ask && r2 is Ask ==> s3.has_resumed(&s2, r2->task, there, r3),
        r1 is Ask && r2 is Ask && r3 is Ask ==> s4.has_resumed(&s3, r3->task, Reply::Done, r4),
        r1 is Ask && r2 is Ask && r3 is Ask && r4 is Ask ==> s5.has_resumed(
            &s4,
            r4->task,
            Reply::Status(status),
            r5,
        ),
    ensures
        r1 is Ask || turned_down(r1, Nfs4Status::Stale) && (from != 1000 || to != 1000),
        r1 is Ask ==> ({
            &&& entry_path(s0, from, from_name@) is Some
            &&& entry_path(s0, to, to_name@) is Some
            &&& ({
                let old_path = entry_path(s0, from, from_name@)->Some_0;
                let new_path = entry_path(s0, to, to_name@)->Some_0;
                let old_id = number_of(source, old_path);
                let new_id = number_of(status, new_path);
                &&& asks_status(r1, old_path)
                &&& asks_status(r2, new_path)
                &&& r3 is Ask
                &&& r3->request is Rename
                &&& r3->request->Rename_from@ == old_path
                &&& r3->request->Rename_to@ == new_path
                &&& asks_status(r4, new_path)
                &&& comes_to(r5, FsAnswer::Done)
                &&& found_at(s5, new_id, new_path)
                &&& old_path != new_path ==> !kept_ids(s5.path_cache.path_to_id).contains_key(
                    old_path,
                )
                &&& !s5.statuses().contains_key(from)
                &&& !s5.statuses().contains_key(to)
                &&& !s5.statuses().contains_key(old_id)
                &&& !s5.statuses().contains_key(new_id)
                &&& s0.open_files@.contains_key(old_id) ==> s5.open_files@.contains_key(new_id)
                    && s5.open_files@[new_id] == s0.open_files@[old_id]
                &&& s0.open_files@.contains_key(old_id) && old_id != new_id
                    ==> !s5.open_files@.contains_key(old_id)
                &&& !s0.open_files@.contains_key(old_id) ==> s5.open_files@ == s0.open_files@
            })
        }),
{
    entry_is_child(s0, from, from_name@);
    entry_is_child(s0, to, to_name@);
}

/// A further name is made for the file that was named, in the directory and under the name that
/// were given.
pub proof fn law_further_name_is_of_the_file_named(
    s0: Nfs4FileSystem,
    fileid: Fileid4,
    parent: Fileid4,
    name: String,
    s1: Nfs4FileSystem,
    r1: FsStep,
    made: Reply,
    s2: Nfs4FileSystem,
    r2: FsStep,
    status: FileStatus,
    s3: Nfs4FileSystem,
    r3: FsStep,
)
    requires
        s0.wf(),
        !s0.config.read_only,
        s1.has_begun(&s0, FsCall::Link { fileid, parent, name }, r1),
        r1 is Ask ==> s2.has_resumed(&s1, r1->task, made, r2),
        r1 is Ask && r2 is Ask ==> s3.has_resumed(&s2, r2->task, Reply::Status(status), r3),
    ensures
        r1 is Ask || turned_down(r1, Nfs4Status::Stale) && (fileid != 1000 || parent != 1000),
        r1 is Ask ==> ({
            &&& path_known(s0, fileid) is Some
            &&& entry_path(s0, parent, name@) is Some
            &&& ({
                let path = entry_path(s0, parent, name@)->Some_0;
                &&& r1->request is Link
                &&& r1->request->Link_from@ == path_known(s0, fileid)->Some_0
                &&& r1->request->Link_to@ == path
                &&& made is Done ==> {
                    &&& asks_status(r2, path_known(s0, fileid)->Some_0)
                    &&& comes_to(r3, FsAnswer::Status(status))
                    &&& found_at(s3, status.id as u64, path)
                    &&& !s3.statuses().contains_key(parent)
                    &&& !s3.statuses().contains_key(fileid)
                }
            })
        }),
{
    entry_is_child(s0, fileid, name@);
    entry_is_child(s0, parent, name@);
}

/// What is found under a name is what the storage has there, under the number that it has there;
/// it is found under that number from then on. A file whose number is remembered of its path may
/// be answered as it is remembered.
pub proof fn law_name_leads_to_what_lies_there(
    s0: Nfs4FileSystem,
    parent: Fileid4,
    name: String,
    s1: Nfs4FileSystem,
    r1: FsStep,
    status: FileStatus,
    s2: Nfs4FileSystem,
    r2: FsStep,
)
    requires
        s0.wf(),
        s1.has_begun(&s0, FsCall::Lookup { parent, name }, r1),
        r1 is Ask && r1->task is Lookup ==> s2.has_resumed(
            &s1,
            r1->task,
            Reply::Status(status),
            r2,
        ),
        crate::text::text_bytes(name@) != seq![46u8],
        crate::text::text_bytes(name@) != seq![46u8, 46u8],
        entry_path(s0, parent, name@) != Some(seq!['/']),
    ensures
        r1 is Ask || r1 is Done,
        r1 is Done && r1->result is Err ==> turned_down(r1, Nfs4Status::Stale),
        r1 is Done && r1->result is Ok ==> ({
            &&& entry_path(s0, parent, name@) is Some
            &&& ({
                let path = entry_path(s0, parent, name@)->Some_0;
                let fileid = kept_ids(s0.path_cache.path_to_id)[path];
                &&& kept_ids(s0.path_cache.path_to_id).contains_key(path)
                &&& s0.statuses().contains_key(fileid)
                &&& comes_to(r1, FsAnswer::Found { fileid, status: s0.statuses()[fileid] })
            })
        }),
        r1 is Ask && r1->task is Lookup ==> ({
            &&& entry_path(s0, parent, name@) is Some
            &&& ({
                let path = entry_path(s0, parent, name@)->Some_0;
                &&& asks_status(r1, path)
                &&& comes_to(r2, FsAnswer::Found { fileid: number_of(status, path), status })
                &&& found_at(s2, number_of(status, path), path)
            })
        }),
{
    entry_is_child(s0, parent, name@);
}

/// The status that is answered is that of the file asked for, as the storage gives it. Where the
/// file is being written and nothing is remembered of it, it is as long as it was written, if that
/// is longer.
pub proof fn law_status_is_that_of_the_file(
    s0: Nfs4FileSystem,
    fileid: Fileid4,
    s1: Nfs4FileSystem,
    r1: FsStep,
    status: FileStatus,
    s2: Nfs4FileSystem,
    r2: FsStep,
    pos: Option<i64>,
    s3: Nfs4FileSystem,
    r3: FsStep,
)
    requires
        s0.wf(),
        s1.has_begun(&s0, FsCall::Status { fileid }, r1),
        r1 is Ask ==> s2.has_resumed(&s1, r1->task, Reply::Status(status), r2),
        r1 is Ask && r2 is Ask ==> s3.has_resumed(&s2, r2->task, Reply::Position(pos), r3),
    ensures
        r1 is Ask || r1 is Done,
        r1 is Done && r1->result is Err ==> turned_down(r1, Nfs4Status::Stale) && fileid != 1000,
        r1 is Done && r1->result is Ok ==> s0.statuses().contains_key(fileid) && comes_to(
            r1,
            FsAnswer::Status(s0.statuses()[fileid]),
        ),
        r1 is Ask ==> path_known(s0, fileid) is Some && asks_status(
            r1,
            path_known(s0, fileid)->Some_0,
        ),
        r1 is Ask ==> if s0.open_files@.contains_key(fileid) && s0.open_files@[fileid].writable {
            &&& r2 is Ask
            &&& r2->request == (Request::WriterPos { handle: s0.open_files@[fileid].handle })
            &&& r3 is Done
            &&& r3->result is Ok
            &&& r3->result->Ok_0 is Status
            &&& ({
                let told = r3->result->Ok_0->Status_0;
                &&& told == FileStatus { len: told.len, ..status }
                &&& pos is None ==> told.len == status.len
                &&& pos is Some ==> told.len == if pos->Some_0 > status.len {
                    pos->Some_0
                } else {
                    status.len
                }
            })
        } else {
            comes_to(r2, FsAnswer::Status(status))
        },
{
    entry_is_child(s0, fileid, Seq::empty());
}

/// What a link leads to is answered as the storage has it; what is no link leads nowhere.
pub proof fn law_link_leads_where_the_storage_says(
    s0: Nfs4FileSystem,
    fileid: Fileid4,
    s1: Nfs4FileSystem,
    r1: FsStep,
    status: FileStatus,
    s2: Nfs4FileSystem,
    r2: FsStep,
)
    requires
        s0.wf(),
        s1.has_begun(&s0, FsCall::Readlink { fileid }, r1),
        !s0.open_files@.contains_key(fileid),
        r1 is Ask ==> s2.has_resumed(&s1, r1->task, Reply::Status(status), r2),
    ensures
        r1 is Ask || r1 is Done,
        r1 is Ask ==> path_known(s0, fileid) is Some && asks_status(
            r1,
            path_known(s0, fileid)->Some_0,
        ),
        r1 is Ask ==> if status.file_type == FileType::Link && status.target is Some {
            comes_to(r2, FsAnswer::Target(status.target->Some_0))
        } else {
            turned_down(r2, Nfs4Status::Inval)
        },
{
    entry_is_child(s0, fileid, Seq::empty());
}


/// A file is read from where it was asked, as much as was asked or as is there, and never beyond
/// its end. What is answered is what the storage gives, and that the file ends there where it was
/// less than was asked or reaches the end.
pub proof fn law_read_asks_for_the_bytes_wanted(
    s0: Nfs4FileSystem,
    fileid: Fileid4,
    offset: u64,
    count: u32,
    s1: Nfs4FileSystem,
    r1: FsStep,
    len: i64,
    s2: Nfs4FileSystem,
    r2: FsStep,
    data: Vec<u8>,
    s3: Nfs4FileSystem,
    r3: FsStep,
    s4: Nfs4FileSystem,
    r4: FsStep,
)
    requires
        s0.wf(),
        len >= 0,
        s1.has_begun(&s0, FsCall::Read { fileid, offset, count }, r1),
        r1 is Ask ==> s2.has_resumed(&s1, r1->task, Reply::Length(len), r2),
        r1 is Ask && r2 is Ask ==> s3.has_resumed(&s2, r2->task, Reply::Data(data), r3),
        r1 is Ask && r2 is Ask && r3 is Ask ==> s4.has_resumed(&s3, r3->task, Reply::Done, r4),
    ensures
        r1 is Ask || turned_down(r1, Nfs4Status::Stale) && fileid != 1000,
        r1 is Ask ==> {
            &&& path_known(s0, fileid) is Some
            &&& r1->request is OpenReader
            &&& r1->request->OpenReader_path@ == path_known(s0, fileid)->Some_0
            &&& r1->request->OpenReader_handle == s0.next_handle
            &&& s1.next_handle != s0.next_handle
            &&& offset >= len || count == 0 ==> {
                &&& r2 is Done
                &&& r2->result is Ok
                &&& r2->result->Ok_0 is Data
                &&& r2->result->Ok_0->data@.len() == 0
                &&& r2->result->Ok_0->eof
            }
            &&& offset < len && count > 0 ==> {
                &&& r2 is Ask
                &&& r2->request == (Request::ReadAt {
                    handle: s0.next_handle,
                    offset: offset as i64,
                    count: if offset + count <= len {
                        count
                    } else {
                        (len - offset) as u32
                    },
                })
                &&& r3 is Ask
                &&& r3->request == (Request::Close { handle: s0.next_handle })
                &&& comes_to(
                    r4,
                    FsAnswer::Data {
                        data,
                        eof: data@.len() < count || offset + data@.len() >= len,
                    },
                )
            }
        },
{
    entry_is_child(s0, fileid, Seq::empty());
}

/// An open file is read from where it was asked, through what was opened, where it was opened to
/// be read.
pub proof fn law_read_of_an_open_file_asks_for_the_bytes_wanted(
    s0: Nfs4FileSystem,
    fileid: Fileid4,
    offset: u64,
    count: u32,
    s1: Nfs4FileSystem,
    r1: FsStep,
    len: i64,
    s2: Nfs4FileSystem,
    r2: FsStep,
    data: Vec<u8>,
    s3: Nfs4FileSystem,
    r3: FsStep,
)
    requires
        s0.wf(),
        len >= 0,
        s1.has_begun(&s0, FsCall::ReadOpen { fileid, offset, count }, r1),
        r1 is Ask ==> s2.has_resumed(&s1, r1->task, Reply::Length(len), r2),
        r1 is Ask && r2 is Ask ==> s3.has_resumed(&s2, r2->task, Reply::Data(data), r3),
    ensures
        !s0.open_files@.contains_key(fileid) ==> turned_down(r1, Nfs4Status::BadStateid),
        s0.open_files@.contains_key(fileid) && !s0.open_files@[fileid].readable ==> turned_down(
            r1,
            Nfs4Status::Openmode,
        ),
        s0.open_files@.contains_key(fileid) && s0.open_files@[fileid].readable ==> {
            let handle = s0.open_files@[fileid].handle;
            &&& r1 is Ask
            &&& r1->request == (Request::ReaderLen { handle })
            &&& offset >= len || count == 0 ==> {
                &&& r2 is Done
                &&& r2->result is Ok
                &&& r2->result->Ok_0 is Data
                &&& r2->result->Ok_0->data@.len() == 0
                &&& r2->result->Ok_0->eof
            }
            &&& offset < len && count > 0 ==> {
                &&& r2 is Ask
                &&& r2->request == (Request::ReadAt {
                    handle,
                    offset: offset as i64,
                    count: if offset + count <= len {
                        count
                    } else {
                        (len - offset) as u32
                    },
                })
                &&& comes_to(
                    r3,
                    FsAnswer::Data {
                        data,
                        eof: data@.len() < count || offset + data@.len() >= len,
                    },
                )
            }
        },
{
}

/// A file is written where it was asked, with the bytes that were given, after it was made as long
/// as it then has to be. As many bytes are answered as were given, and that they last; how the
/// file was is forgotten.
pub proof fn law_write_hands_on_the_bytes_given(
    s0: Nfs4FileSystem,
    fileid: Fileid4,
    offset: u64,
    data: Vec<u8>,
    s1: Nfs4FileSystem,
    r1: FsStep,
    len: i64,
    s2: Nfs4FileSystem,
    r2: FsStep,
    s3: Nfs4FileSystem,
    r3: FsStep,
)
    requires
        s0.wf(),
        !s0.config.read_only,
        offset + data@.len() <= i64::MAX,
        data@.len() <= u32::MAX,
        s1.has_begun(&s0, FsCall::Write { fileid, offset, data }, r1),
        r1 is Ask ==> s2.has_resumed(&s1, r1->task, Reply::Length(len), r2),
        r1 is Ask && offset + data@.len() > len ==> s3.has_resumed(
            &s2,
            r2->task,
            Reply::Done,
            r3,
        ),
        r1 is Ask && offset + data@.len() <= len ==> s3 == s2 && r3 == r2,
    ensures
        r1 is Ask || turned_down(r1, Nfs4Status::Stale) && fileid != 1000,
        r1 is Ask ==> {
            &&& path_known(s0, fileid) is Some
            &&& r1->request is OpenWriter
            &&& r1->request->OpenWriter_path@ == path_known(s0, fileid)->Some_0
            &&& r1->request->OpenWriter_handle == s0.next_handle
            &&& offset + data@.len() > len ==> r2 is Ask && r2->request == (Request::Extend {
                handle: s0.next_handle,
                len: (offset + data@.len()) as i64,
            })
            &&& r3 is Ask
            &&& r3->request == (Request::WriteAt {
                handle: s0.next_handle,
                offset: offset as i64,
                data,
                sync: false,
            })
        },
{
    entry_is_child(s0, fileid, Seq::empty());
}

/// Once the storage has taken the bytes, what was opened is closed, as many bytes are answered as
/// were given, and that they last.
pub proof fn law_written_bytes_are_all_told(
    s0: Nfs4FileSystem,
    fileid: Fileid4,
    handle: u64,
    offset: u64,
    data: Vec<u8>,
    len: i64,
    s1: Nfs4FileSystem,
    r1: FsStep,
    written: Reply,
    s2: Nfs4FileSystem,
    r2: FsStep,
    s3: Nfs4FileSystem,
    r3: FsStep,
)
    requires
        data@.len() <= u32::MAX,
        offset + data@.len() <= i64::MAX,
        if offset + data@.len() > len {
            s1.has_resumed(
                &s0,
                FsTask::WriteExtend { fileid, handle, offset, data },
                Reply::Done,
                r1,
            )
        } else {
            s1.has_resumed(
                &s0,
                FsTask::WriteLen { fileid, handle, offset, data },
                Reply::Length(len),
                r1,
            )
        },
        written is Written,
        s2.has_resumed(&s1, r1->task, written, r2),
        s3.has_resumed(&s2, r2->task, Reply::Done, r3),
    ensures
        r2 is Ask,
        r2->request == (Request::Close { handle }),
        comes_to(r3, FsAnswer::Written { count: data@.len() as u32, synced: true }),
        !s3.statuses().contains_key(fileid),
{
}

/// An open file is written through what was opened, where it was opened to be written, and what the
/// storage says of it is answered.
pub proof fn law_write_of_an_open_file_hands_on_the_bytes_given(
    s0: Nfs4FileSystem,
    fileid: Fileid4,
    offset: u64,
    data: Vec<u8>,
    sync: bool,
    s1: Nfs4FileSystem,
    r1: FsStep,
    count: u32,
    synced: bool,
    s2: Nfs4FileSystem,
    r2: FsStep,
)
    requires
        s0.wf(),
        s1.has_begun(&s0, FsCall::WriteOpen { fileid, offset, data, sync }, r1),
        r1 is Ask ==> s2.has_resumed(&s1, r1->task, Reply::Written { count, synced }, r2),
    ensures
        !s0.open_files@.contains_key(fileid) ==> turned_down(r1, Nfs4Status::BadStateid),
        s0.open_files@.contains_key(fileid) && !s0.open_files@[fileid].writable ==> turned_down(
            r1,
            Nfs4Status::Openmode,
        ),
        s0.open_files@.contains_key(fileid) && s0.open_files@[fileid].writable ==> {
            &&& r1 is Ask
            &&& r1->request == (Request::WriteAt {
                handle: s0.open_files@[fileid].handle,
                offset: offset as i64,
                data,
                sync,
            })
            &&& comes_to(r2, FsAnswer::Written { count, synced })
        },
{
}

/// How far an open file was written is what the storage says, and nothing of one that is not open
/// to be written. Making its changes last is asked of the storage for one that is, and is done at
/// once for one that is not.
pub proof fn law_open_file_goes_by_what_was_opened(
    s0: Nfs4FileSystem,
    fileid: Fileid4,
    s1: Nfs4FileSystem,
    r1: FsStep,
    pos: Option<i64>,
    s2: Nfs4FileSystem,
    r2: FsStep,
    s3: Nfs4FileSystem,
    r3: FsStep,
    flushed: Reply,
    s4: Nfs4FileSystem,
    r4: FsStep,
)
    requires
        s0.wf(),
        s1.has_begun(&s0, FsCall::WriterPos { fileid }, r1),
        r1 is Ask ==> s2.has_resumed(&s1, r1->task, Reply::Position(pos), r2),
        s3.has_begun(&s0, FsCall::Commit { fileid }, r3),
        r3 is Ask ==> s4.has_resumed(&s3, r3->task, flushed, r4),
    ensures
        if s0.open_files@.contains_key(fileid) && s0.open_files@[fileid].writable {
            let handle = s0.open_files@[fileid].handle;
            &&& r1 is Ask
            &&& r1->request == (Request::WriterPos { handle })
            &&& comes_to(r2, FsAnswer::Position(pos))
            &&& r3 is Ask
            &&& r3->request == (Request::Flush { handle })
            &&& flushed is Done ==> comes_to(r4, FsAnswer::Done)
            &&& flushed is Failed ==> turned_down(r4, Nfs4Status::Io)
        } else {
            comes_to(r1, FsAnswer::Position(None)) && comes_to(r3, FsAnswer::Done)
        },
{
}

/// Whether an access, of reading (1) and writing (2), holds the given one.
pub open spec fn allows(access: u32, one: u32) -> bool {
    access & one != 0
}

/// A file that is not open is opened at its path, to be read where reading was asked for and to be
/// written where writing was, both under one handle that no other has. It is open from then on,
/// once, for what was asked for.
#[verifier::rlimit(30)]
pub proof fn law_file_is_opened_for_what_was_asked(
    s0: Nfs4FileSystem,
    fileid: Fileid4,
    access: u32,
    s1: Nfs4FileSystem,
    r1: FsStep,
    len: i64,
    s2: Nfs4FileSystem,
    r2: FsStep,
    s3: Nfs4FileSystem,
    r3: FsStep,
)
    requires
        s0.wf(),
        !s0.open_files@.contains_key(fileid),
        s1.has_begun(&s0, FsCall::Open { fileid, access }, r1),
        r1 is Ask ==> s2.has_resumed(&s1, r1->task, Reply::Length(len), r2),
        r1 is Ask && r2 is Ask ==> s3.has_resumed(&s2, r2->task, Reply::Length(len), r3),
    ensures
        r1 is Done && r1->result is Err ==> turned_down(r1, Nfs4Status::Stale) && fileid != 1000,
        !(r1 is Done && r1->result is Err) ==> {
            let last = if r1 is Done {
                s1
            } else if r2 is Done {
                s2
            } else {
                s3
            };
            let r = if r1 is Done {
                r1
            } else if r2 is Done {
                r2
            } else {
                r3
            };
            let opened = last.open_files@[fileid];
            &&& path_known(s0, fileid) is Some
            &&& r1 is Ask <==> allows(access, 1) || allows(access, 2)
            &&& allows(access, 1) ==> {
                &&& r1->request is OpenReader
                &&& r1->request->OpenReader_handle == s0.next_handle
                &&& r1->request->OpenReader_path@ == path_known(s0, fileid)->Some_0
                &&& r2 is Ask <==> allows(access, 2)
                &&& r2 is Ask ==> {
                    &&& r2->request is OpenWriter
                    &&& r2->request->OpenWriter_handle == s0.next_handle
                    &&& r2->request->OpenWriter_path@ == path_known(s0, fileid)->Some_0
                }
            }
            &&& !allows(access, 1) && allows(access, 2) ==> {
                &&& r1->request is OpenWriter
                &&& r1->request->OpenWriter_handle == s0.next_handle
                &&& r1->request->OpenWriter_path@ == path_known(s0, fileid)->Some_0
                &&& r2 is Done
            }
            &&& comes_to(r, FsAnswer::Done)
            &&& last.next_handle != s0.next_handle
            &&& last.open_files@.contains_key(fileid)
            &&& opened.fileid == fileid
            &&& opened.path@ == path_known(s0, fileid)->Some_0
            &&& opened.handle == s0.next_handle
            &&& opened.readable == allows(access, 1)
            &&& opened.writable == allows(access, 2)
            &&& opened.access == access
            &&& opened.ref_count == 1
            &&& forall|f: u64|
                f != fileid ==> (#[trigger] last.open_files@.contains_key(f)
                    <==> s0.open_files@.contains_key(f))
        },
{
    entry_is_child(s0, fileid, Seq::empty());
}

/// A file that is open is not opened again for what it is open for already; what it lacks is
/// opened under the handle and at the path that it has. It is counted as open once more where that
/// is asked for.
pub proof fn law_open_file_gets_what_it_lacks(
    s0: Nfs4FileSystem,
    fileid: Fileid4,
    access: u32,
    add_ref: bool,
    s1: Nfs4FileSystem,
    r1: FsStep,
    len: i64,
    s2: Nfs4FileSystem,
    r2: FsStep,
    s3: Nfs4FileSystem,
    r3: FsStep,
)
    requires
        s0.wf(),
        s0.open_files@.contains_key(fileid),
        s0.open_files@[fileid].ref_count < u32::MAX,
        s1.has_begun(&s0, FsCall::Reopen { fileid, access, add_ref }, r1),
        r1 is Ask ==> s2.has_resumed(&s1, r1->task, Reply::Length(len), r2),
        r1 is Ask && r2 is Ask ==> s3.has_resumed(&s2, r2->task, Reply::Length(len), r3),
    ensures
        ({
            let file = s0.open_files@[fileid];
            let last = if r1 is Done {
                s1
            } else if r2 is Done {
                s2
            } else {
                s3
            };
            let r = if r1 is Done {
                r1
            } else if r2 is Done {
                r2
            } else {
                r3
            };
            let opened = last.open_files@[fileid];
            let reads = allows(access, 1) && !allows(file.access, 1);
            let writes = allows(access, 2) && !allows(file.access, 2);
            &&& r1 is Ask <==> reads || writes
            &&& reads ==> {
                &&& r1->request == (Request::OpenReader { handle: file.handle, path: file.path })
                &&& r2 is Ask <==> writes
                &&& r2 is Ask ==> r2->request == (Request::OpenWriter {
                    handle: file.handle,
                    path: file.path,
                })
            }
            &&& !reads && writes ==> r1->request == (Request::OpenWriter {
                handle: file.handle,
                path: file.path,
            })
            &&& comes_to(r, FsAnswer::Done)
            &&& last.open_files@.contains_key(fileid)
            &&& opened.handle == file.handle
            &&& opened.path == file.path
            &&& opened.readable == (file.readable || reads)
            &&& opened.writable == (file.writable || writes)
            &&& opened.access == file.access | access
            &&& opened.ref_count == if add_ref {
                file.ref_count + 1
            } else {
                file.ref_count as int
            }
        }),
{
    let a = s0.open_files@[fileid].access;
    assert((a | access) & 1 == (a & 1) | (access & 1)) by (bit_vector);
    assert((a | access) & 2 == (a & 2) | (access & 2)) by (bit_vector);
    let (x, y, u, v) = (a & 1, access & 1, a & 2, access & 2);
    assert((x | y != 0 <==> x != 0 || y != 0) && (u | v != 0 <==> u != 0 || v != 0))
        by (bit_vector);
}

/// A file that is open several times stays open until it was closed as often. With the last time,
/// what was opened is closed, and how the file was is forgotten.
pub proof fn law_file_stays_open_until_the_last_close(
    s0: Nfs4FileSystem,
    fileid: Fileid4,
    s1: Nfs4FileSystem,
    r1: FsStep,
    s2: Nfs4FileSystem,
    r2: FsStep,
)
    requires
        s0.wf(),
        s1.has_begun(&s0, FsCall::Close { fileid }, r1),
        r1 is Ask ==> s2.has_resumed(&s1, r1->task, Reply::Done, r2),
    ensures
        !s0.open_files@.contains_key(fileid) ==> turned_down(r1, Nfs4Status::BadStateid),
        s0.open_files@.contains_key(fileid) && s0.open_files@[fileid].ref_count > 1 ==> {
            &&& comes_to(r1, FsAnswer::Done)
            &&& s1.open_files@.contains_key(fileid)
            &&& s1.open_files@[fileid].ref_count == s0.open_files@[fileid].ref_count - 1
            &&& s1.open_files@[fileid].handle == s0.open_files@[fileid].handle
            &&& s1.open_files@[fileid].access == s0.open_files@[fileid].access
        },
        s0.open_files@.contains_key(fileid) && s0.open_files@[fileid].ref_count == 1 ==> {
            &&& r1 is Ask
            &&& r1->request == (Request::Close { handle: s0.open_files@[fileid].handle })
            &&& comes_to(r2, FsAnswer::Done)
            &&& !s2.open_files@.contains_key(fileid)
            &&& !s2.statuses().contains_key(fileid)
            &&& forall|f: u64|
                f != fileid ==> (#[trigger] s2.open_files@.contains_key(f)
                    <==> s0.open_files@.contains_key(f))
        },
{
}

/// Mode and owners are set on the file named: the names of the owners are asked for by their
/// numbers, and they and the mode are set as they are. Then its status is answered.
pub proof fn law_mode_and_owners_are_set_on_the_file_named(
    s0: Nfs4FileSystem,
    fileid: Fileid4,
    set: SetAttrs,
    s1: Nfs4FileSystem,
    r1: FsStep,
    owner: Option<String>,
    group: Option<String>,
    s2: Nfs4FileSystem,
    r2: FsStep,
    s3: Nfs4FileSystem,
    r3: FsStep,
)
    requires
        s0.wf(),
        !s0.config.read_only,
        set.size is None,
        s1.has_begun(&s0, FsCall::Setattr { fileid, set }, r1),
        if set.uid is Some || set.gid is Some {
            r1 is Ask ==> s2.has_resumed(&s1, r1->task, Reply::Names { owner, group }, r2)
        } else {
            owner is None && group is None && r2 == r1 && s2 == s1
        },
        r2 is Ask ==> s3.has_resumed(&s2, r2->task, Reply::Done, r3),
    ensures
        r1 is Done ==> turned_down(r1, Nfs4Status::Stale) && fileid != 1000,
        !(r1 is Done) ==> {
            &&& path_known(s0, fileid) is Some
            &&& set.uid is Some || set.gid is Some ==> r1 is Ask && r1->request == (
            Request::Names { uid: set.uid, gid: set.gid })
            &&& set.mode is Some || owner is Some || group is Some ==> {
                &&& r2 is Ask
                &&& r2->request is SetAttr
                &&& r2->request->SetAttr_path@ == path_known(s0, fileid)->Some_0
                &&& r2->request->SetAttr_mode == set.mode
                &&& r2->request->SetAttr_owner == owner
                &&& r2->request->SetAttr_group == group
                &&& r3 == (FsStep::Next { call: FsCall::Status { fileid } })
            }
            &&& set.mode is None && owner is None && group is None ==> r2 == (FsStep::Next {
                call: FsCall::Status { fileid },
            })
        },
{
    entry_is_child(s0, fileid, Seq::empty());
}

/// A file is made as long as was asked before anything else of it is set: through what was opened
/// where it is open to be written, else through what is opened for it and closed behind it. One
/// that is as long as that already is left as it is.
pub proof fn law_file_is_made_as_long_as_asked(
    s0: Nfs4FileSystem,
    fileid: Fileid4,
    set: SetAttrs,
    path: String,
    status: FileStatus,
    s1: Nfs4FileSystem,
    r1: FsStep,
    len: i64,
    s2: Nfs4FileSystem,
    r2: FsStep,
    s3: Nfs4FileSystem,
    r3: FsStep,
    s4: Nfs4FileSystem,
    r4: FsStep,
)
    requires
        s0.wf(),
        set.size is Some,
        set.size->Some_0 <= i64::MAX,
        status.len >= 0,
        set.uid is None,
        set.gid is None,
        set.mode is None,
        s1.has_status(
            &s0,
            fileid,
            status,
            crate::storage::StatusFor::Setattr { path, set },
            r1,
        ),
        r1 is Ask && r1->request is OpenWriter ==> s2.has_resumed(
            &s1,
            r1->task,
            Reply::Length(len),
            r2,
        ),
        r1 is Ask && !(r1->request is OpenWriter) ==> s2 == s1 && r2 == r1,
        r1 is Ask ==> s3.has_resumed(&s2, r2->task, Reply::Done, r3),
        r1 is Ask && r3 is Ask ==> s4.has_resumed(&s3, r3->task, Reply::Done, r4),
    ensures
        set.size->Some_0 == status.len ==> r1 == (FsStep::Next { call: FsCall::Status { fileid } }),
        set.size->Some_0 != status.len ==> ({
            let open = s0.open_files@.contains_key(fileid) && s0.open_files@[fileid].writable;
            let handle = if open {
                s0.open_files@[fileid].handle
            } else {
                s0.next_handle
            };
            &&& r1 is Ask
            &&& !open ==> r1->request == (Request::OpenWriter { handle, path })
            &&& r2 is Ask
            &&& r2->request == (Request::Resize { handle, len: set.size->Some_0 as i64 })
            &&& open ==> r3 == (FsStep::Next { call: FsCall::Status { fileid } })
                && !s3.statuses().contains_key(fileid)
            &&& !open ==> {
                &&& r3 is Ask
                &&& r3->request == (Request::Close { handle })
                &&& r4 == (FsStep::Next { call: FsCall::Status { fileid } })
                &&& !s4.statuses().contains_key(fileid)
            }
        }),
{
}

/// What the storage refuses is answered with the failure that it gave, and nothing is changed.
pub proof fn law_failure_of_the_storage_is_passed_on(
    s0: Nfs4FileSystem,
    task: FsTask,
    kind: crate::error::FsErrorKind,
    s1: Nfs4FileSystem,
    r1: FsStep,
)
    requires
        s1.has_resumed(&s0, task, Reply::Failed(kind), r1),
        !(task is Committing),
        !(task is CreateCheck),
        !(task is RemoveCheck),
        !(task is RenameTo),
    ensures
        turned_down(r1, kind.status_of()),
        s1.unchanged(&s0),
{
}

/// A directory is listed at its path.
pub proof fn law_listing_is_of_the_directory_named(
    s0: Nfs4FileSystem,
    dir: Fileid4,
    cookie: u64,
    max_entries: usize,
    s1: Nfs4FileSystem,
    r1: FsStep,
)
    requires
        s0.wf(),
        s1.has_begun(&s0, FsCall::Readdir { dir, cookie, max_entries }, r1),
    ensures
        r1 is Ask || turned_down(r1, Nfs4Status::Stale) && dir != 1000,
        r1 is Ask ==> {
            &&& path_known(s0, dir) is Some
            &&& r1->request is List
            &&& r1->request->List_path@ == path_known(s0, dir)->Some_0
            &&& r1->task is Readdir
            &&& r1->task->Readdir_path@ == path_known(s0, dir)->Some_0
            &&& r1->task->cookie == cookie
            &&& r1->task->max_entries == max_entries
        },
{
    entry_is_child(s0, dir, Seq::empty());
}

/// The number of an entry of the directory at `dir`.
pub open spec fn entry_number(dir: Seq<char>, status: FileStatus) -> Fileid4 {
    number_of(
        status,
        if dir == seq!['/'] {
            dir + status.name@
        } else {
            dir + seq!['/'] + status.name@
        },
    )
}

/// Whether an entry is told as the storage has it.
pub open spec fn told_as_it_is(entry: DirEntry, dir: Seq<char>, status: FileStatus) -> bool {
    &&& entry.fileid == entry_number(dir, status)
    &&& entry.name == status.name
    &&& entry.status == FileStatus { id: entry.fileid as i64, ..status }
}

proof fn picks_are_in_order(
    list: Seq<FileStatus>,
    dir: Seq<char>,
    order: Seq<int>,
    cookie: u64,
    max: nat,
)
    requires
        forall|i: int, j: int|
            0 <= i < j < order.len() ==> comes_first(
                list,
                dir,
                #[trigger] order[i],
                #[trigger] order[j],
            ),
    ensures
        forall|i: int|
            0 <= i < picked(list, dir, order, cookie, max).len() ==> order.contains(
                #[trigger] picked(list, dir, order, cookie, max)[i],
            ),
        forall|i: int, j: int|
            0 <= i < j < picked(list, dir, order, cookie, max).len() ==> comes_first(
                list,
                dir,
                #[trigger] picked(list, dir, order, cookie, max)[i],
                #[trigger] picked(list, dir, order, cookie, max)[j],
            ),
    decreases order.len(),
{
    if order.len() > 0 {
        let less = order.drop_last();
        let part = picked(list, dir, order, cookie, max);
        let before = picked(list, dir, less, cookie, max);
        assert forall|i: int, j: int| 0 <= i < j < less.len() implies comes_first(
            list,
            dir,
            #[trigger] less[i],
            #[trigger] less[j],
        ) by {
            assert(comes_first(list, dir, order[i], order[j]));
        }
        picks_are_in_order(list, dir, less, cookie, max);
        assert forall|i: int| 0 <= i < part.len() implies order.contains(#[trigger] part[i]) by {
            if i < before.len() {
                assert(part[i] == before[i]);
                let k = choose|k: int| 0 <= k < less.len() && less[k] == before[i];
                assert(order[k] == part[i]);
            } else {
                assert(order[order.len() - 1] == part[i]);
            }
        }
        assert forall|i: int, j: int| 0 <= i < j < part.len() implies comes_first(
            list,
            dir,
            #[trigger] part[i],
            #[trigger] part[j],
        ) by {
            assert(part[i] == before[i]);
            if j < before.len() {
                assert(part[j] == before[j]);
            } else {
                let k = choose|k: int| 0 <= k < less.len() && less[k] == before[i];
                assert(comes_first(list, dir, order[k], order[order.len() - 1]));
            }
        }
    }
}

proof fn all_stand_in_order(list: Seq<FileStatus>, dir: Seq<char>, order: Seq<int>, k: int)
    requires
        in_order(list, dir, order),
        0 <= k < list.len(),
    ensures
        order.contains(k),
{
    assert forall|i: int, j: int|
        0 <= i < order.len() && 0 <= j < order.len() && i != j implies order[i] != order[j] by {
        if i < j {
            assert(comes_first(list, dir, order[i], order[j]));
        } else {
            assert(comes_first(list, dir, order[j], order[i]));
        }
    }
    order.unique_seq_to_set();
    let all = vstd::set_lib::set_int_range(0, list.len() as int);
    vstd::set_lib::lemma_int_range(0, list.len() as int);
    assert(order.to_set().subset_of(all));
    vstd::set_lib::lemma_len_subset(order.to_set(), all);
    vstd::set_lib::lemma_subset_equality(order.to_set(), all);
    assert(all.contains(k));
    assert(order.to_set().contains(k));
}

/// A listing gives the entries that the storage has, each as it is there, in the order of their
/// numbers, from behind where it was asked to start and no more than were asked for. It says that
/// the directory ends there where there were fewer, and then none is left out.
pub proof fn law_listing_gives_the_entries_behind_its_start(
    s0: Nfs4FileSystem,
    path: String,
    cookie: u64,
    max_entries: usize,
    list: Vec<FileStatus>,
    s1: Nfs4FileSystem,
    r1: FsStep,
)
    requires
        s1.has_resumed(
            &s0,
            FsTask::Readdir { path, cookie, max_entries },
            Reply::Entries(list),
            r1,
        ),
    ensures
        r1 is Done,
        r1->result is Ok,
        r1->result->Ok_0 is Entries,
        ({
            let entries = r1->result->Ok_0->entries@;
            &&& entries.len() <= max_entries
            &&& r1->result->Ok_0->end <==> entries.len() < max_entries
            &&& forall|i: int|
                #![trigger entries[i]]
                0 <= i < entries.len() ==> entries[i].fileid > cookie && exists|k: int|
                    0 <= k < list@.len() && told_as_it_is(entries[i], path@, #[trigger] list@[k])
            &&& forall|i: int, j: int|
                0 <= i < j < entries.len() ==> (#[trigger] entries[i]).fileid <= (
                #[trigger] entries[j]).fileid
            &&& r1->result->Ok_0->end ==> forall|k: int|
                0 <= k < list@.len() && entry_number(path@, #[trigger] list@[k]) > cookie
                    ==> exists|i: int|
                    0 <= i < entries.len() && told_as_it_is(
                        #[trigger] entries[i],
                        path@,
                        list@[k],
                    )
        }),
{
    let dir = path@;
    let max = max_entries as nat;
    let order = choose|order: Seq<int>| #[trigger]
        in_order(list@, dir, order) && s1.has_listed(
            &s0,
            list@,
            dir,
            order,
            cookie,
            max,
            r1,
        );
    let picks = picked(list@, dir, order, cookie, max);
    let entries = r1->result->Ok_0->entries@;
    picks_are_in_order(list@, dir, order, cookie, max);
    law_listing_goes_on_behind_its_start(list@, dir, order, cookie, max);
    assert forall|k: int| 0 <= k < list@.len() implies #[trigger] entry_id(list@, dir, k)
        == entry_number(dir, list@[k]) by {}
    assert forall|i: int| #![trigger entries[i]] 0 <= i < entries.len() implies entries[i].fileid
        > cookie && told_as_it_is(entries[i], dir, list@[picks[i]]) && 0 <= picks[i]
        < list@.len() by {
        assert(order.contains(picks[i]));
        assert(entries[i].is_of(list@[picks[i]], entry_id(list@, dir, picks[i])));
    }
    assert forall|i: int, j: int| 0 <= i < j < entries.len() implies (
    #[trigger] entries[i]).fileid <= (#[trigger] entries[j]).fileid by {
        assert(comes_first(list@, dir, picks[i], picks[j]));
        assert(told_as_it_is(entries[i], dir, list@[picks[i]]));
        assert(told_as_it_is(entries[j], dir, list@[picks[j]]));
    }
    if entries.len() < max {
        assert forall|k: int|
            0 <= k < list@.len() && entry_number(dir, #[trigger] list@[k])
                > cookie implies exists|i: int|
            0 <= i < entries.len() && told_as_it_is(#[trigger] entries[i], dir, list@[k]) by {
            all_stand_in_order(list@, dir, order, k);
            let at = choose|at: int| 0 <= at < order.len() && order[at] == k;
            assert(entry_id(list@, dir, k) == entry_number(dir, list@[k]));
            law_ended_listing_is_complete(list@, dir, order, cookie, max, at);
            let i = choose|i: int| 0 <= i < picks.len() && picks[i] == k;
            assert(told_as_it_is(entries[i], dir, list@[k]));
        }
    }
}

} // verus!
