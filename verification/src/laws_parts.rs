//! What the parts come to that operations are made of.

use crate::attrs::SetAttrs;
use crate::backchannel::{BackchannelManager, BackchannelState};
use crate::bytes::{key12, key16, XdrError};
use crate::delegation::DelegationManager;
use crate::error::{Nfs4Error, Nfs4Result, Nfs4Status};
use crate::fs::Nfs4FileSystem;
use crate::laws_request::accepts;
use crate::laws_storage::{asks_status, turned_down};
use crate::lease::LeaseManager;
use crate::op_close::openattr_result;
use crate::persistence::{file_in, file_paths};
use crate::pnfs::{first_worker, LocatedBlock, PnfsManager, WorkerAddress};
use crate::rpc::{accept_body, accepted, mismatch_info, rpc_msg};
use crate::storage::{FsAnswer, FsStep, FsTask, Request};
use crate::tcp::told_or;
use crate::text::text_bytes;
use crate::time::Duration;
use crate::types::{Clientid4, FileStatus, FileType, Fileid4, Sessionid4};
use crate::wire::{Received, RpcServer};
use crate::xdr::{Decode, XDR};
use vstd::prelude::*;
use vstd::std_specs::convert::FromSpec;

verus! {

/// A message that cannot be read is not answered. A reply is taken for the call that it is to, and
/// a call is taken as such, each with what stands behind its head.
pub proof fn law_message_goes_by_its_kind(
    before: RpcServer,
    after: RpcServer,
    s: Seq<u8>,
    client: Seq<u8>,
    local_port: u16,
    out: Received<'_>,
)
    requires
        after.has_received(&before, s, client, local_port, out),
    ensures
        rpc_msg::decoded_len(s) matches Err(e) ==> out == (Received::Failed { fault: e }) && after
            == before,
        rpc_msg::decoded_len(s) matches Ok(n) ==> exists|msg: rpc_msg|
            {
                &&& #[trigger] msg.decodes_to(s)
                &&& msg.body is REPLY ==> out is Nothing && after.tracker == before.tracker
                    && after.handler.has_taken_reply(
                    &before.handler,
                    s.skip(n as int),
                    msg.xid,
                    msg.body->REPLY_0,
                )
                &&& msg.body is CALL ==> after.has_taken_call(
                    &before,
                    msg.xid,
                    msg.body->CALL_0,
                    s.skip(n as int),
                    client,
                    local_port,
                    out,
                )
            },
{
}

/// The replies that are made for a call are to that call, and tell by their number what it came to.
pub proof fn law_replies_that_are_made_are_to_their_call(m: rpc_msg, xid: u32, low: u32, high: u32)
    ensures
        accepted(m, xid, accept_body::SUCCESS) ==> m.encodable() && accepts(m.encoding(), xid, 0),
        accepted(m, xid, accept_body::PROG_UNAVAIL) ==> accepts(m.encoding(), xid, 1),
        accepted(m, xid, accept_body::PROG_MISMATCH(mismatch_info { low, high })) ==> accepts(
            m.encoding(),
            xid,
            2,
        ),
        accepted(m, xid, accept_body::PROC_UNAVAIL) ==> accepts(m.encoding(), xid, 3),
        accepted(m, xid, accept_body::GARBAGE_ARGS) ==> accepts(m.encoding(), xid, 4),
{
    crate::laws_request::law_reply_answers_its_call(xid, low, high);
    if accepted(m, xid, accept_body::SUCCESS) {
        crate::rpc::accepted_encoding(m, xid, accept_body::SUCCESS);
    }
    if accepted(m, xid, accept_body::PROG_UNAVAIL) {
        crate::rpc::accepted_encoding(m, xid, accept_body::PROG_UNAVAIL);
    }
    let v = accept_body::PROG_MISMATCH(mismatch_info { low, high });
    if accepted(m, xid, v) {
        crate::rpc::accepted_encoding(m, xid, v);
    }
    if accepted(m, xid, accept_body::PROC_UNAVAIL) {
        crate::rpc::accepted_encoding(m, xid, accept_body::PROC_UNAVAIL);
    }
    if accepted(m, xid, accept_body::GARBAGE_ARGS) {
        crate::rpc::accepted_encoding(m, xid, accept_body::GARBAGE_ARGS);
    }
}

/// A session that is entered to be called back through belongs to its client, is up, has no
/// connection yet, and has as many slots as it was given, none of them in use and each at 1. One
/// that was entered before is up again and stays as it was.
pub proof fn law_session_is_entered_to_be_called_through(
    before: BackchannelManager,
    after: BackchannelManager,
    session_id: Sessionid4,
    client_id: Clientid4,
    cb_program: u32,
    slot_count: u32,
    i: int,
)
    requires
        after.has_registered(&before, session_id, client_id, cb_program, slot_count),
    ensures
        ({
            let k = key16(session_id@);
            let c = after.channels@[k];
            &&& after.channels@.contains_key(k)
            &&& c.state == BackchannelState::Up
            &&& !before.channels@.contains_key(k) ==> {
                &&& c.session_id == session_id
                &&& c.client_id == client_id
                &&& c.cb_program == cb_program
                &&& c.wire is None
                &&& c.slots@.len() == slot_count
                &&& 0 <= i < slot_count ==> c.slots@[i].slot_id == i && c.slots@[i].sequence == 1
                    && !c.slots@[i].in_use
                &&& after.client_sessions.of(client_id) == before.client_sessions.of(
                    client_id,
                ).push(k)
            }
            &&& before.channels@.contains_key(k) ==> {
                &&& c.client_id == before.channels@[k].client_id
                &&& c.wire == before.channels@[k].wire
                &&& c.slots@ == before.channels@[k].slots@
            }
        }),
{
    assert(after.channels@.dom().contains(key16(session_id@)));
}

/// A layout that is given back is gone, and no other is; the next one is numbered as before.
pub proof fn law_layout_given_back_is_gone(
    before: PnfsManager,
    after: PnfsManager,
    k: u128,
    other: u128,
)
    requires
        after.has_returned(&before, k),
    ensures
        !after.layouts@.contains_key(k),
        other != k && before.layouts@.contains_key(other) ==> after.layouts@.contains_key(other)
            && after.layouts@[other] == before.layouts@[other],
        after.next_layout == before.next_layout,
{
}

/// A block is kept by the first worker that has it, and by none where none has it.
pub proof fn law_block_is_kept_by_its_first_worker(b: LocatedBlock, w: WorkerAddress)
    ensures
        b.locs@.len() > 0 ==> PnfsManager::keeper(b) == b.locs@[0].worker_id,
        b.locs@.len() == 0 ==> PnfsManager::keeper(b) == 0,
        first_worker(Some(&w)) == w.worker_id,
        first_worker(None) == 0,
{
}

/// A delegation that is taken away is gone with its stateid, and no other is.
pub proof fn law_delegation_taken_away_is_gone(
    before: DelegationManager,
    after: DelegationManager,
    fileid: Fileid4,
    other: Fileid4,
)
    requires
        after.has_lost(&before, fileid),
    ensures
        !after.delegations@.contains_key(fileid),
        before.delegations@.contains_key(fileid) ==> !after.stateid_to_file@.contains_key(
            key12(before.delegations@[fileid].stateid.other@),
        ),
        other != fileid && before.delegations@.contains_key(other)
            ==> after.delegations@.contains_key(other) && after.delegations@[other]
            == before.delegations@[other],
{
}

/// Those whose lease is over are the confirmed ones that have nothing reserved and were not heard of
/// for the time of a lease.
pub proof fn law_expired_are_told(m: LeaseManager, now: Duration, s: Seq<Clientid4>, c: Clientid4)
    requires
        m.expired_are(now, s),
        m.leases@.contains_key(c),
        now.nanos >= m.leases@[c].last_renew.nanos,
    ensures
        s.contains(c) <==> m.leases@[c].confirmed && m.leases@[c].reservations == 0 && now.nanos
            - m.leases@[c].last_renew.nanos >= m.lease_lifetime.nanos,
{
    assert(s.contains(c) <==> m.expired_at(now, c));
}

/// What is cleared away of a directory is each file in it, in its order.
pub proof fn law_each_file_is_cleared_away(
    dir: Seq<char>,
    entries: Seq<FileStatus>,
    next: FileStatus,
)
    ensures
        file_paths(dir, Seq::empty()).len() == 0,
        file_paths(dir, entries.push(next)) == if next.file_type == FileType::File {
            file_paths(dir, entries).push(file_in(dir, next.name@))
        } else {
            file_paths(dir, entries)
        },
{
    assert(entries.push(next).drop_last() =~= entries);
}

/// A setting is what was told, or the usual where nothing was.
pub proof fn law_told_settings_come_first(told: u32, usual: u32, flag: bool)
    ensures
        told_or(Some(told), usual) == told,
        told_or(None, usual) == usual,
        told_or(Some(flag), true) == flag,
        told_or::<bool>(None, true),
{
}

/// Attributes of their own are asked for in vain.
pub proof fn law_files_have_no_attributes_of_their_own(s: Seq<u8>, r: Nfs4Result<Vec<u8>>)
    requires
        openattr_result(s, r),
    ensures
        r is Err,
        s.len() >= 4 ==> r->Err_0.status == Nfs4Status::Notsupp,
        s.len() < 4 ==> r->Err_0.status == Nfs4Status::Io,
{
}

/// What is to be set is something where any one attribute is.
pub proof fn law_something_is_to_be_set(set: SetAttrs)
    ensures
        set.mode is Some || set.uid is Some || set.gid is Some || set.size is Some || set.atime
            is Some || set.mtime is Some ==> set.sets_something(),
        set.mode is None && set.uid is None && set.gid is None && set.size is None && set.atime
            is None && set.mtime is None ==> !set.sets_something(),
{
}

/// A failure is a status and nothing more, and what cannot be read fails as input.
pub proof fn law_failures_are_their_status(status: Nfs4Status, e: XdrError)
    ensures
        <Nfs4Error as FromSpec<Nfs4Status>>::from_spec(status).status == status,
        <Nfs4Error as FromSpec<Nfs4Status>>::from_spec(status).message is None,
        <Nfs4Error as FromSpec<Nfs4Status>>::from_spec(status).data is None,
        <Nfs4Error as FromSpec<XdrError>>::from_spec(e).status == Nfs4Status::Io,
{
}

/// A name other than one dot or two is looked for behind the path of the directory that was found,
/// under the name.
pub proof fn law_name_is_looked_for_in_what_was_found(
    before: Nfs4FileSystem,
    after: Nfs4FileSystem,
    parent: Fileid4,
    dir: String,
    name: Seq<char>,
    r: FsStep,
)
    requires
        after.has_looked_in(&before, parent, Some(dir), name, None, r),
        text_bytes(name) != seq![46u8],
        text_bytes(name) != seq![46u8, 46u8],
    ensures
        after.unchanged(&before),
        asks_status(
            r,
            if dir@ == seq!['/'] {
                dir@ + name
            } else {
                dir@ + seq!['/'] + name
            },
        ),
{
}

/// Where a directory was not found, nothing is looked for in it.
pub proof fn law_nothing_is_looked_for_in_what_was_not_found(
    before: Nfs4FileSystem,
    after: Nfs4FileSystem,
    parent: Fileid4,
    name: Seq<char>,
    known: Option<Fileid4>,
    r: FsStep,
)
    requires
        after.has_looked_in(&before, parent, None, name, known, r),
    ensures
        after.unchanged(&before),
        turned_down(r, Nfs4Status::Stale),
{
}

/// A file is opened at the path that was found, for reading where that was asked for, else for
/// writing where that was, under the next handle.
pub proof fn law_file_is_opened_at_the_path_found(
    before: Nfs4FileSystem,
    after: Nfs4FileSystem,
    fileid: Fileid4,
    path: String,
    access: u32,
    r: FsStep,
)
    requires
        after.has_begun_open_at(&before, fileid, Some(path), access, r),
    ensures
        access & 1 != 0 ==> r == (FsStep::Ask {
            task: FsTask::OpenReader { fileid, path, handle: before.next_handle, access },
            request: Request::OpenReader { handle: before.next_handle, path },
        }),
        access & 1 == 0 && access & 2 != 0 ==> r == (FsStep::Ask {
            task: FsTask::OpenWriter { fileid, path, handle: before.next_handle, access },
            request: Request::OpenWriter { handle: before.next_handle, path },
        }),
        access & 1 == 0 && access & 2 == 0 ==> r == (FsStep::Done { result: Ok(FsAnswer::Done) })
            && after.open_files@.contains_key(fileid),
        after.next_handle != before.next_handle,
{
}

/// A server that may only be read changes nothing, and one that may be written changes only what was
/// found.
pub proof fn law_changes_need_a_directory(
    fs: Nfs4FileSystem,
    found: Option<String>,
    r: FsStep,
    goes_on: bool,
)
    requires
        fs.change_in(found, r, goes_on),
    ensures
        fs.config.read_only ==> turned_down(r, Nfs4Status::Rofs),
        !fs.config.read_only && found is None ==> turned_down(r, Nfs4Status::Stale),
        !fs.config.read_only && found is Some ==> goes_on,
{
}

} // verus!
