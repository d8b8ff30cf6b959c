//! The order in which requests and their parts stand on the wire.

use crate::args::{
    AuthSysParms, ChannelAttrs, CloseArgs, CommitArgs, CreateArgs, CreateSessionHead, DelegatedName,
    ExchangeIdArgs, LockHead, LocktArgs, LockuArgs, NewLocker, OldLocker, OpenConfirmArgs,
    OpenDowngradeArgs, OpenHead, ReadArgs, ReaddirArgs, ReleaseLockownerArgs, RenameArgs,
    SequenceArgs, SetattrArgs, SetclientidArgs, SetclientidConfirmArgs, WriteArgs,
};
use crate::bytes::{be32, be32_at, be64_at, opaque, pad_len};
use crate::op_open::{has_read_claim, OpenClaim};
use crate::request::CompoundHead;
use crate::rpc::{auth_unix, call_body, mismatch_info, opaque_auth};
use crate::types::{ClientOwner4, Fattr4, LockOwner4, Nfstime4, OpenOwner4};
use crate::xdr::{opaque_at, opaque_len, Decode};
use vstd::prelude::*;

verus! {

/// How many bytes an opaque value takes up: its length, itself, and what fills up the last word.
pub open spec fn opaque_size(s: Seq<u8>) -> int {
    4 + be32_at(s) + pad_len(be32_at(s) as nat)
}

/// What is read of naming a slot of a session stands in the order of the protocol.
pub proof fn law_sequence_args_stands_in_order(v: SequenceArgs, s: Seq<u8>)
    requires
        SequenceArgs::decoded_len(s) is Ok,
        v.decodes_to(s),
    ensures
        v.sessionid@ == s.take(16),
        v.sequenceid == be32_at(s.skip(16)),
        v.slotid == be32_at(s.skip(20)),
        v.highest_slotid == be32_at(s.skip(24)),
        v.cachethis == be32_at(s.skip(28)),
{
    broadcast use {crate::bytes::skip_skip, crate::bytes::skip_nothing};

}

/// What is read of a client that tells who it is stands in the order of the protocol.
pub proof fn law_exchange_id_args_stands_in_order(v: ExchangeIdArgs, s: Seq<u8>)
    requires
        ExchangeIdArgs::decoded_len(s) is Ok,
        v.decodes_to(s),
    ensures
        ({
            let n1 = 0 + 8 + opaque_size(s.skip(8));
            &&& v.client_owner.decodes_to(s)
            &&& v.flags == be32_at(s.skip(n1))
            &&& v.state_protect == be32_at(s.skip(n1 + 4))
            &&& v.impls.decodes_to(s.skip(n1 + 8))
        }),
{
    broadcast use {crate::bytes::skip_skip, crate::bytes::skip_nothing};

}

/// What is read of making a session stands in the order of the protocol.
pub proof fn law_create_session_head_stands_in_order(v: CreateSessionHead, s: Seq<u8>)
    requires
        CreateSessionHead::decoded_len(s) is Ok,
        v.decodes_to(s),
    ensures
        v.clientid == be64_at(s),
        v.seqid == be32_at(s.skip(8)),
        v.flags == be32_at(s.skip(12)),
{
    broadcast use {crate::bytes::skip_skip, crate::bytes::skip_nothing};

}

/// What is read of what goes through a channel stands in the order of the protocol.
pub proof fn law_channel_attrs_stands_in_order(v: ChannelAttrs, s: Seq<u8>)
    requires
        ChannelAttrs::decoded_len(s) is Ok,
        v.decodes_to(s),
    ensures
        v.headerpadsize == be32_at(s),
        v.maxrequestsize == be32_at(s.skip(4)),
        v.maxresponsesize == be32_at(s.skip(8)),
        v.maxresponsesize_cached == be32_at(s.skip(12)),
        v.maxoperations == be32_at(s.skip(16)),
        v.maxrequests == be32_at(s.skip(20)),
        v.rdma.decodes_to(s.skip(24)),
{
    broadcast use {crate::bytes::skip_skip, crate::bytes::skip_nothing};

}

/// What is read of a client of the version before sessions stands in the order of the protocol.
pub proof fn law_setclientid_args_stands_in_order(v: SetclientidArgs, s: Seq<u8>)
    requires
        SetclientidArgs::decoded_len(s) is Ok,
        v.decodes_to(s),
    ensures
        ({
            let n1 = 8 + opaque_size(s.skip(8));
            let n2 = n1 + 4 + opaque_size(s.skip(n1 + 4));
            let n3 = n2 + opaque_size(s.skip(n2));
            &&& v.verifier@ == s.take(8)
            &&& v.client_id@ == opaque_at(s.skip(8))
            &&& v.cb_program == be32_at(s.skip(n1))
            &&& v.netid@ == opaque_at(s.skip(n1 + 4))
            &&& v.addr@ == opaque_at(s.skip(n2))
            &&& v.callback_ident == be32_at(s.skip(n3))
        }),
{
    broadcast use {crate::bytes::skip_skip, crate::bytes::skip_nothing};

}

/// What is read of confirming a client stands in the order of the protocol.
pub proof fn law_setclientid_confirm_args_stands_in_order(v: SetclientidConfirmArgs, s: Seq<u8>)
    requires
        SetclientidConfirmArgs::decoded_len(s) is Ok,
        v.decodes_to(s),
    ensures
        v.clientid == be64_at(s),
        v.verifier@ == s.skip(8).take(8),
{
    broadcast use {crate::bytes::skip_skip, crate::bytes::skip_nothing};

}

/// What is read of opening a file stands in the order of the protocol.
pub proof fn law_open_head_stands_in_order(v: OpenHead, s: Seq<u8>)
    requires
        OpenHead::decoded_len(s) is Ok,
        v.decodes_to(s),
    ensures
        ({
            let n1 = 20 + opaque_size(s.skip(20));
            &&& v.seqid == be32_at(s)
            &&& v.share_access == be32_at(s.skip(4))
            &&& v.share_deny == be32_at(s.skip(8))
            &&& v.clientid == be64_at(s.skip(12))
            &&& v.owner@ == opaque_at(s.skip(20))
            &&& v.opentype == be32_at(s.skip(n1))
        }),
{
    broadcast use {crate::bytes::skip_skip, crate::bytes::skip_nothing};

}

/// What is read of confirming an open file stands in the order of the protocol.
pub proof fn law_open_confirm_args_stands_in_order(v: OpenConfirmArgs, s: Seq<u8>)
    requires
        OpenConfirmArgs::decoded_len(s) is Ok,
        v.decodes_to(s),
    ensures
        v.stateid.seqid == be32_at(s),
        v.stateid.other@ == s.skip(4).take(12),
        v.seqid == be32_at(s.skip(16)),
{
    broadcast use {crate::bytes::skip_skip, crate::bytes::skip_nothing};

}

/// What is read of giving up part of what a file was opened for stands in the order of the protocol.
pub proof fn law_open_downgrade_args_stands_in_order(v: OpenDowngradeArgs, s: Seq<u8>)
    requires
        OpenDowngradeArgs::decoded_len(s) is Ok,
        v.decodes_to(s),
    ensures
        v.stateid.seqid == be32_at(s),
        v.stateid.other@ == s.skip(4).take(12),
        v.seqid == be32_at(s.skip(16)),
        v.access == be32_at(s.skip(20)),
        v.deny == be32_at(s.skip(24)),
{
    broadcast use {crate::bytes::skip_skip, crate::bytes::skip_nothing};

}

/// What is read of closing a file stands in the order of the protocol.
pub proof fn law_close_args_stands_in_order(v: CloseArgs, s: Seq<u8>)
    requires
        CloseArgs::decoded_len(s) is Ok,
        v.decodes_to(s),
    ensures
        v.seqid == be32_at(s),
        v.stateid.seqid == be32_at(s.skip(4)),
        v.stateid.other@ == s.skip(8).take(12),
{
    broadcast use {crate::bytes::skip_skip, crate::bytes::skip_nothing};

}

/// What is read of a lock stands in the order of the protocol.
pub proof fn law_lock_head_stands_in_order(v: LockHead, s: Seq<u8>)
    requires
        LockHead::decoded_len(s) is Ok,
        v.decodes_to(s),
    ensures
        v.locktype == be32_at(s),
        v.reclaim == be32_at(s.skip(4)),
        v.offset == be64_at(s.skip(8)),
        v.length == be64_at(s.skip(16)),
        v.locker_type == be32_at(s.skip(24)),
{
    broadcast use {crate::bytes::skip_skip, crate::bytes::skip_nothing};

}

/// What is read of the first lock of an owner stands in the order of the protocol.
pub proof fn law_new_locker_stands_in_order(v: NewLocker, s: Seq<u8>)
    requires
        NewLocker::decoded_len(s) is Ok,
        v.decodes_to(s),
    ensures
        ({
            let n1 = 32 + opaque_size(s.skip(32));
            &&& v.open_seqid == be32_at(s)
            &&& v.open_stateid.seqid == be32_at(s.skip(4))
            &&& v.open_stateid.other@ == s.skip(8).take(12)
            &&& v.lock_seqid == be32_at(s.skip(20))
            &&& v.clientid == be64_at(s.skip(24))
            &&& v.owner@ == opaque_at(s.skip(32))
        }),
{
    broadcast use {crate::bytes::skip_skip, crate::bytes::skip_nothing};

}

/// What is read of a further lock of an owner stands in the order of the protocol.
pub proof fn law_old_locker_stands_in_order(v: OldLocker, s: Seq<u8>)
    requires
        OldLocker::decoded_len(s) is Ok,
        v.decodes_to(s),
    ensures
        v.lock_stateid.seqid == be32_at(s),
        v.lock_stateid.other@ == s.skip(4).take(12),
        v.lock_seqid == be32_at(s.skip(16)),
{
    broadcast use {crate::bytes::skip_skip, crate::bytes::skip_nothing};

}

/// What is read of testing for a lock stands in the order of the protocol.
pub proof fn law_lockt_args_stands_in_order(v: LocktArgs, s: Seq<u8>)
    requires
        LocktArgs::decoded_len(s) is Ok,
        v.decodes_to(s),
    ensures
        ({
            let n1 = 28 + opaque_size(s.skip(28));
            &&& v.locktype == be32_at(s)
            &&& v.offset == be64_at(s.skip(4))
            &&& v.length == be64_at(s.skip(12))
            &&& v.clientid == be64_at(s.skip(20))
            &&& v.owner@ == opaque_at(s.skip(28))
        }),
{
    broadcast use {crate::bytes::skip_skip, crate::bytes::skip_nothing};

}

/// What is read of giving a range back stands in the order of the protocol.
pub proof fn law_locku_args_stands_in_order(v: LockuArgs, s: Seq<u8>)
    requires
        LockuArgs::decoded_len(s) is Ok,
        v.decodes_to(s),
    ensures
        v.locktype == be32_at(s),
        v.seqid == be32_at(s.skip(4)),
        v.stateid.seqid == be32_at(s.skip(8)),
        v.stateid.other@ == s.skip(12).take(12),
        v.offset == be64_at(s.skip(24)),
        v.length == be64_at(s.skip(32)),
{
    broadcast use {crate::bytes::skip_skip, crate::bytes::skip_nothing};

}

/// What is read of giving back all of an owner stands in the order of the protocol.
pub proof fn law_release_lockowner_args_stands_in_order(v: ReleaseLockownerArgs, s: Seq<u8>)
    requires
        ReleaseLockownerArgs::decoded_len(s) is Ok,
        v.decodes_to(s),
    ensures
        ({
            let n1 = 8 + opaque_size(s.skip(8));
            &&& v.clientid == be64_at(s)
            &&& v.owner@ == opaque_at(s.skip(8))
        }),
{
    broadcast use {crate::bytes::skip_skip, crate::bytes::skip_nothing};

}

/// What is read of reading stands in the order of the protocol.
pub proof fn law_read_args_stands_in_order(v: ReadArgs, s: Seq<u8>)
    requires
        ReadArgs::decoded_len(s) is Ok,
        v.decodes_to(s),
    ensures
        v.stateid.seqid == be32_at(s),
        v.stateid.other@ == s.skip(4).take(12),
        v.offset == be64_at(s.skip(16)),
        v.count == be32_at(s.skip(24)),
{
    broadcast use {crate::bytes::skip_skip, crate::bytes::skip_nothing};

}

/// What is read of writing stands in the order of the protocol.
pub proof fn law_write_args_stands_in_order(v: WriteArgs, s: Seq<u8>)
    requires
        WriteArgs::decoded_len(s) is Ok,
        v.decodes_to(s),
    ensures
        ({
            let n1 = 28 + opaque_size(s.skip(28));
            &&& v.stateid.seqid == be32_at(s)
            &&& v.stateid.other@ == s.skip(4).take(12)
            &&& v.offset == be64_at(s.skip(16))
            &&& v.stable == be32_at(s.skip(24))
            &&& v.data@ == opaque_at(s.skip(28))
        }),
{
    broadcast use {crate::bytes::skip_skip, crate::bytes::skip_nothing};

}

/// What is read of making changes last stands in the order of the protocol.
pub proof fn law_commit_args_stands_in_order(v: CommitArgs, s: Seq<u8>)
    requires
        CommitArgs::decoded_len(s) is Ok,
        v.decodes_to(s),
    ensures
        v.offset == be64_at(s),
        v.count == be32_at(s.skip(8)),
{
    broadcast use {crate::bytes::skip_skip, crate::bytes::skip_nothing};

}

/// What is read of setting attributes stands in the order of the protocol.
pub proof fn law_setattr_args_stands_in_order(v: SetattrArgs, s: Seq<u8>)
    requires
        SetattrArgs::decoded_len(s) is Ok,
        v.decodes_to(s),
    ensures
        v.stateid.seqid == be32_at(s),
        v.stateid.other@ == s.skip(4).take(12),
        v.fattr.decodes_to(s.skip(16)),
{
    broadcast use {crate::bytes::skip_skip, crate::bytes::skip_nothing};

}

/// What is read of listing a directory stands in the order of the protocol.
pub proof fn law_readdir_args_stands_in_order(v: ReaddirArgs, s: Seq<u8>)
    requires
        ReaddirArgs::decoded_len(s) is Ok,
        v.decodes_to(s),
    ensures
        v.cookie == be64_at(s),
        v.cookieverf@ == s.skip(8).take(8),
        v.dircount == be32_at(s.skip(16)),
        v.maxcount == be32_at(s.skip(20)),
        v.attr_request.decodes_to(s.skip(24)),
{
    broadcast use {crate::bytes::skip_skip, crate::bytes::skip_nothing};

}

/// What is read of renaming stands in the order of the protocol.
pub proof fn law_rename_args_stands_in_order(v: RenameArgs, s: Seq<u8>)
    requires
        RenameArgs::decoded_len(s) is Ok,
        v.decodes_to(s),
    ensures
        ({
            let n1 = 0 + opaque_size(s);
            let n2 = n1 + opaque_size(s.skip(n1));
            &&& v.oldname@ == opaque_at(s)
            &&& v.newname@ == opaque_at(s.skip(n1))
        }),
{
    broadcast use {crate::bytes::skip_skip, crate::bytes::skip_nothing};

}

/// What is read of opening by a delegation stands in the order of the protocol.
pub proof fn law_delegated_name_stands_in_order(v: DelegatedName, s: Seq<u8>)
    requires
        DelegatedName::decoded_len(s) is Ok,
        v.decodes_to(s),
    ensures
        ({
            let n1 = 16 + opaque_size(s.skip(16));
            &&& v.stateid.seqid == be32_at(s)
            &&& v.stateid.other@ == s.skip(4).take(12)
            &&& v.name@ == opaque_at(s.skip(16))
        }),
{
    broadcast use {crate::bytes::skip_skip, crate::bytes::skip_nothing};

}

/// What is read of who a callback comes from stands in the order of the protocol.
pub proof fn law_auth_sys_parms_stands_in_order(v: AuthSysParms, s: Seq<u8>)
    requires
        AuthSysParms::decoded_len(s) is Ok,
        v.decodes_to(s),
    ensures
        ({
            let n1 = 4 + opaque_size(s.skip(4));
            &&& v.stamp == be32_at(s)
            &&& v.machine@ == opaque_at(s.skip(4))
            &&& v.uid == be32_at(s.skip(n1))
            &&& v.gid == be32_at(s.skip(n1 + 4))
            &&& v.gids.decodes_to(s.skip(n1 + 8))
        }),
{
    broadcast use {crate::bytes::skip_skip, crate::bytes::skip_nothing};

}

/// What is read of who a client is stands in the order of the protocol.
pub proof fn law_client_owner_stands_in_order(v: ClientOwner4, s: Seq<u8>)
    requires
        ClientOwner4::decoded_len(s) is Ok,
        v.decodes_to(s),
    ensures
        ({
            let n1 = 8 + opaque_size(s.skip(8));
            &&& v.co_verifier@ == s.take(8)
            &&& v.co_ownerid@ == opaque_at(s.skip(8))
        }),
{
    broadcast use {crate::bytes::skip_skip, crate::bytes::skip_nothing};

}

/// What is read of who has a lock stands in the order of the protocol.
pub proof fn law_lock_owner_stands_in_order(v: LockOwner4, s: Seq<u8>)
    requires
        LockOwner4::decoded_len(s) is Ok,
        v.decodes_to(s),
    ensures
        ({
            let n1 = 8 + opaque_size(s.skip(8));
            &&& v.clientid == be64_at(s)
            &&& v.owner@ == opaque_at(s.skip(8))
        }),
{
    broadcast use {crate::bytes::skip_skip, crate::bytes::skip_nothing};

}

/// What is read of who has a file open stands in the order of the protocol.
pub proof fn law_open_owner_stands_in_order(v: OpenOwner4, s: Seq<u8>)
    requires
        OpenOwner4::decoded_len(s) is Ok,
        v.decodes_to(s),
    ensures
        ({
            let n1 = 8 + opaque_size(s.skip(8));
            &&& v.clientid == be64_at(s)
            &&& v.owner@ == opaque_at(s.skip(8))
        }),
{
    broadcast use {crate::bytes::skip_skip, crate::bytes::skip_nothing};

}

/// What is read of a time stands in the order of the protocol.
pub proof fn law_nfstime_stands_in_order(v: Nfstime4, s: Seq<u8>)
    requires
        Nfstime4::decoded_len(s) is Ok,
        v.decodes_to(s),
    ensures
        v.seconds == be64_at(s) as i64,
        v.nseconds == be32_at(s.skip(8)),
{
    broadcast use {crate::bytes::skip_skip, crate::bytes::skip_nothing};

}

/// What is read of attributes stands in the order of the protocol.
pub proof fn law_fattr_stands_in_order(v: Fattr4, s: Seq<u8>)
    requires
        Fattr4::decoded_len(s) is Ok,
        v.decodes_to(s),
    ensures
        v.attrmask.decodes_to(s),
{
    broadcast use {crate::bytes::skip_skip, crate::bytes::skip_nothing};

}

/// What is read of who a call comes from stands in the order of the protocol.
pub proof fn law_auth_unix_stands_in_order(v: auth_unix, s: Seq<u8>)
    requires
        auth_unix::decoded_len(s) is Ok,
        v.decodes_to(s),
    ensures
        ({
            let n1 = 4 + opaque_size(s.skip(4));
            &&& v.stamp == be32_at(s)
            &&& v.machinename@ == opaque_at(s.skip(4))
            &&& v.uid == be32_at(s.skip(n1))
            &&& v.gid == be32_at(s.skip(n1 + 4))
            &&& v.gids.decodes_to(s.skip(n1 + 8))
        }),
{
    broadcast use {crate::bytes::skip_skip, crate::bytes::skip_nothing};

}

/// What is read of a credential stands in the order of the protocol.
pub proof fn law_opaque_auth_stands_in_order(v: opaque_auth, s: Seq<u8>)
    requires
        opaque_auth::decoded_len(s) is Ok,
        v.decodes_to(s),
    ensures
        ({
            let n1 = 4 + opaque_size(s.skip(4));
            &&& be32_at(s) <= 3 ==> v.flavor.code_of() == be32_at(s)
            &&& v.body@ == opaque_at(s.skip(4))
        }),
{
    broadcast use {crate::bytes::skip_skip, crate::bytes::skip_nothing};

}

/// What is read of the versions that are known stands in the order of the protocol.
pub proof fn law_mismatch_info_stands_in_order(v: mismatch_info, s: Seq<u8>)
    requires
        mismatch_info::decoded_len(s) is Ok,
        v.decodes_to(s),
    ensures
        v.low == be32_at(s),
        v.high == be32_at(s.skip(4)),
{
    broadcast use {crate::bytes::skip_skip, crate::bytes::skip_nothing};

}

/// What is read of a call stands in the order of the protocol.
pub proof fn law_call_body_stands_in_order(v: call_body, s: Seq<u8>)
    requires
        call_body::decoded_len(s) is Ok,
        v.decodes_to(s),
    ensures
        ({
            let n1 = 16 + 4 + opaque_size(s.skip(20));
            let n2 = n1 + 4 + opaque_size(s.skip(n1 + 4));
            &&& v.rpcvers == be32_at(s)
            &&& v.prog == be32_at(s.skip(4))
            &&& v.vers == be32_at(s.skip(8))
            &&& v.proc == be32_at(s.skip(12))
            &&& v.cred.decodes_to(s.skip(16))
            &&& v.verf.decodes_to(s.skip(n1))
        }),
{
    broadcast use {crate::bytes::skip_skip, crate::bytes::skip_nothing};

}

/// What is read of a compound request stands in the order of the protocol.
pub proof fn law_compound_head_stands_in_order(v: CompoundHead, s: Seq<u8>)
    requires
        CompoundHead::decoded_len(s) is Ok,
        v.decodes_to(s),
    ensures
        ({
            let n1 = 0 + opaque_size(s);
            &&& v.tag@ == opaque_at(s)
            &&& v.minor_version == be32_at(s.skip(n1))
            &&& v.op_count == be32_at(s.skip(n1 + 4))
        }),
{
    broadcast use {crate::bytes::skip_skip, crate::bytes::skip_nothing};

}

/// An opaque value is its length, its bytes, and zeros up to the next word.
pub proof fn law_opaque_value_stands_behind_its_length(b: Seq<u8>, i: int)
    requires
        b.len() <= u32::MAX,
        0 <= i < b.len(),
    ensures
        be32_at(opaque(b)) == b.len(),
        opaque(b)[4 + i] == b[i],
        opaque(b).len() % 4 == 0,
        b.len() + 4 <= opaque(b).len() < b.len() + 8,
        forall|j: int| b.len() + 4 <= j < opaque(b).len() ==> #[trigger] opaque(b)[j] == 0,
{
    crate::bytes::be32_round_trip(b.len() as u32, opaque(b).skip(4));
    assert(opaque(b) =~= be32(b.len() as u32) + opaque(b).skip(4));
}

/// An opaque value that is read is as long as its length says, and is what stands behind it.
pub proof fn law_opaque_value_is_read_behind_its_length(s: Seq<u8>, most: nat, i: int)
    requires
        opaque_len(s, most) is Ok,
        0 <= i < be32_at(s),
    ensures
        be32_at(s) <= most,
        opaque_at(s).len() == be32_at(s),
        opaque_at(s)[i] == s[4 + i],
        opaque_len(s, most)->Ok_0 % 4 == 0,
        be32_at(s) + 4 <= opaque_len(s, most)->Ok_0 < be32_at(s) + 8,
{
}

/// By what right a file is opened goes by a number: by a name (0), as before the server was started
/// (1), by a delegation and a name (2), by a delegation from before and a name (3), by the current
/// handle (4), and by a delegation and the current handle (5), also one from before (6).
pub proof fn law_claim_goes_by_its_number(s: Seq<u8>, left: Seq<u8>, claim: OpenClaim)
    requires
        has_read_claim(s, left, Ok(claim)),
    ensures
        s.len() >= 4,
        be32_at(s) <= 6,
        claim is Null <==> be32_at(s) == 0,
        claim is Previous <==> be32_at(s) == 1,
        claim is DelegCur <==> be32_at(s) == 2,
        claim is DelegPrev <==> be32_at(s) == 3,
        claim is Fh <==> be32_at(s) == 4,
        claim is DelegCurFh <==> be32_at(s) == 5,
        claim is DelegPrevFh <==> be32_at(s) == 6,
        claim matches OpenClaim::Null(name) ==> name@ == opaque_at(s.skip(4)),
        claim matches OpenClaim::DelegCur { stateid, name } ==> {
            &&& stateid.seqid == be32_at(s.skip(4))
            &&& stateid.other@ == s.skip(8).take(12)
            &&& name@ == opaque_at(s.skip(20))
        },
        claim matches OpenClaim::DelegCurFh(stateid) ==> {
            &&& stateid.seqid == be32_at(s.skip(4))
            &&& stateid.other@ == s.skip(8).take(12)
        },
{
    broadcast use {crate::bytes::skip_skip, crate::bytes::skip_nothing};

}

/// Something that is not a file is asked for by its kind, where a link leads for a link (5), and
/// its name and attributes.
pub proof fn law_create_args_stands_in_order(v: CreateArgs, s: Seq<u8>)
    requires
        CreateArgs::decoded_len(s) is Ok,
        v.decodes_to(s),
    ensures
        ({
            let n: int = if be32_at(s) == 5 {
                4 + opaque_size(s.skip(4))
            } else if be32_at(s) == 3 || be32_at(s) == 4 {
                12
            } else {
                4
            };
            &&& v.kind.obj_type == be32_at(s)
            &&& v.kind.link is Some <==> be32_at(s) == 5
            &&& be32_at(s) == 5 ==> v.kind.link->Some_0@ == opaque_at(s.skip(4))
            &&& v.objname@ == opaque_at(s.skip(n))
            &&& v.fattr.decodes_to(s.skip(n + opaque_size(s.skip(n))))
        }),
{
    broadcast use {crate::bytes::skip_skip, crate::bytes::skip_nothing};

}

} // verus!
