//! The numbers that operations, statuses and kinds have on the wire.

use crate::bytes::{be32, be32_at, be32_round_trip, be64, be64_at, be64_round_trip, le64};
use crate::compound::Nfs4Op;
use crate::error::{FsErrorKind, Nfs4Status};
use crate::types::{
    FileAttrs, FileStatus, FileType, Nfs4FileType, DEFAULT_LEASE_TIME, MAX_COMPOUND_OPS,
    NFS4_MINOR_VERSION, NFS4_PROGRAM, NFS4_VERSION,
};
use vstd::prelude::*;

verus! {

/// Each operation has its number in the protocol, and a number that none has is illegal.
pub proof fn law_operations_have_their_numbers(v: u32)
    ensures
        Nfs4Op::of_code(v) == Nfs4Op::Access <==> v == 3,
        Nfs4Op::of_code(v) == Nfs4Op::Close <==> v == 4,
        Nfs4Op::of_code(v) == Nfs4Op::Commit <==> v == 5,
        Nfs4Op::of_code(v) == Nfs4Op::Create <==> v == 6,
        Nfs4Op::of_code(v) == Nfs4Op::Delegpurge <==> v == 7,
        Nfs4Op::of_code(v) == Nfs4Op::Delegreturn <==> v == 8,
        Nfs4Op::of_code(v) == Nfs4Op::Getattr <==> v == 9,
        Nfs4Op::of_code(v) == Nfs4Op::Getfh <==> v == 10,
        Nfs4Op::of_code(v) == Nfs4Op::Link <==> v == 11,
        Nfs4Op::of_code(v) == Nfs4Op::Lock <==> v == 12,
        Nfs4Op::of_code(v) == Nfs4Op::Lockt <==> v == 13,
        Nfs4Op::of_code(v) == Nfs4Op::Locku <==> v == 14,
        Nfs4Op::of_code(v) == Nfs4Op::Lookup <==> v == 15,
        Nfs4Op::of_code(v) == Nfs4Op::Lookupp <==> v == 16,
        Nfs4Op::of_code(v) == Nfs4Op::Nverify <==> v == 17,
        Nfs4Op::of_code(v) == Nfs4Op::Open <==> v == 18,
        Nfs4Op::of_code(v) == Nfs4Op::Openattr <==> v == 19,
        Nfs4Op::of_code(v) == Nfs4Op::OpenConfirm <==> v == 20,
        Nfs4Op::of_code(v) == Nfs4Op::OpenDowngrade <==> v == 21,
        Nfs4Op::of_code(v) == Nfs4Op::Putfh <==> v == 22,
        Nfs4Op::of_code(v) == Nfs4Op::Putpubfh <==> v == 23,
        Nfs4Op::of_code(v) == Nfs4Op::Putrootfh <==> v == 24,
        Nfs4Op::of_code(v) == Nfs4Op::Read <==> v == 25,
        Nfs4Op::of_code(v) == Nfs4Op::Readdir <==> v == 26,
        Nfs4Op::of_code(v) == Nfs4Op::Readlink <==> v == 27,
        Nfs4Op::of_code(v) == Nfs4Op::Remove <==> v == 28,
        Nfs4Op::of_code(v) == Nfs4Op::Rename <==> v == 29,
        Nfs4Op::of_code(v) == Nfs4Op::Renew <==> v == 30,
        Nfs4Op::of_code(v) == Nfs4Op::Restorefh <==> v == 31,
        Nfs4Op::of_code(v) == Nfs4Op::Savefh <==> v == 32,
        Nfs4Op::of_code(v) == Nfs4Op::Secinfo <==> v == 33,
        Nfs4Op::of_code(v) == Nfs4Op::Setattr <==> v == 34,
        Nfs4Op::of_code(v) == Nfs4Op::Setclientid <==> v == 35,
        Nfs4Op::of_code(v) == Nfs4Op::SetclientidConfirm <==> v == 36,
        Nfs4Op::of_code(v) == Nfs4Op::Verify <==> v == 37,
        Nfs4Op::of_code(v) == Nfs4Op::Write <==> v == 38,
        Nfs4Op::of_code(v) == Nfs4Op::ReleaseLockowner <==> v == 39,
        Nfs4Op::of_code(v) == Nfs4Op::BackchannelCtl <==> v == 40,
        Nfs4Op::of_code(v) == Nfs4Op::BindConnToSession <==> v == 41,
        Nfs4Op::of_code(v) == Nfs4Op::ExchangeId <==> v == 42,
        Nfs4Op::of_code(v) == Nfs4Op::CreateSession <==> v == 43,
        Nfs4Op::of_code(v) == Nfs4Op::DestroySession <==> v == 44,
        Nfs4Op::of_code(v) == Nfs4Op::FreeStateid <==> v == 45,
        Nfs4Op::of_code(v) == Nfs4Op::GetDirDelegation <==> v == 46,
        Nfs4Op::of_code(v) == Nfs4Op::Getdeviceinfo <==> v == 47,
        Nfs4Op::of_code(v) == Nfs4Op::Getdevicelist <==> v == 48,
        Nfs4Op::of_code(v) == Nfs4Op::Layoutcommit <==> v == 49,
        Nfs4Op::of_code(v) == Nfs4Op::Layoutget <==> v == 50,
        Nfs4Op::of_code(v) == Nfs4Op::Layoutreturn <==> v == 51,
        Nfs4Op::of_code(v) == Nfs4Op::SecinfoNoName <==> v == 52,
        Nfs4Op::of_code(v) == Nfs4Op::Sequence <==> v == 53,
        Nfs4Op::of_code(v) == Nfs4Op::SetSsv <==> v == 54,
        Nfs4Op::of_code(v) == Nfs4Op::TestStateid <==> v == 55,
        Nfs4Op::of_code(v) == Nfs4Op::WantDelegation <==> v == 56,
        Nfs4Op::of_code(v) == Nfs4Op::DestroyClientid <==> v == 57,
        Nfs4Op::of_code(v) == Nfs4Op::ReclaimComplete <==> v == 58,
        Nfs4Op::of_code(v) == Nfs4Op::Illegal <==> v < 3 || v > 58,
        3 <= v <= 58 ==> Nfs4Op::of_code(v).code_of() == v,
        Nfs4Op::Illegal.code_of() == 10044,
{
}

/// Each status has its number in the protocol.
pub proof fn law_statuses_have_their_numbers(st: Nfs4Status)
    ensures
        st.code_of() == 0 <==> st == Nfs4Status::Success,
        st.code_of() == 1 <==> st == Nfs4Status::Perm,
        st.code_of() == 2 <==> st == Nfs4Status::Noent,
        st.code_of() == 5 <==> st == Nfs4Status::Io,
        st.code_of() == 6 <==> st == Nfs4Status::Nxio,
        st.code_of() == 13 <==> st == Nfs4Status::Access,
        st.code_of() == 17 <==> st == Nfs4Status::Exist,
        st.code_of() == 18 <==> st == Nfs4Status::Xdev,
        st.code_of() == 20 <==> st == Nfs4Status::Notdir,
        st.code_of() == 21 <==> st == Nfs4Status::Isdir,
        st.code_of() == 22 <==> st == Nfs4Status::Inval,
        st.code_of() == 27 <==> st == Nfs4Status::Fbig,
        st.code_of() == 28 <==> st == Nfs4Status::Nospc,
        st.code_of() == 30 <==> st == Nfs4Status::Rofs,
        st.code_of() == 31 <==> st == Nfs4Status::Mlink,
        st.code_of() == 63 <==> st == Nfs4Status::Nametoolong,
        st.code_of() == 66 <==> st == Nfs4Status::Notempty,
        st.code_of() == 69 <==> st == Nfs4Status::Dquot,
        st.code_of() == 70 <==> st == Nfs4Status::Stale,
        st.code_of() == 10001 <==> st == Nfs4Status::Badhandle,
        st.code_of() == 10003 <==> st == Nfs4Status::BadCookie,
        st.code_of() == 10004 <==> st == Nfs4Status::Notsupp,
        st.code_of() == 10005 <==> st == Nfs4Status::Toosmall,
        st.code_of() == 10006 <==> st == Nfs4Status::Serverfault,
        st.code_of() == 10007 <==> st == Nfs4Status::Badtype,
        st.code_of() == 10008 <==> st == Nfs4Status::Delay,
        st.code_of() == 10009 <==> st == Nfs4Status::Same,
        st.code_of() == 10010 <==> st == Nfs4Status::Denied,
        st.code_of() == 10011 <==> st == Nfs4Status::Expired,
        st.code_of() == 10012 <==> st == Nfs4Status::Locked,
        st.code_of() == 10013 <==> st == Nfs4Status::Grace,
        st.code_of() == 10014 <==> st == Nfs4Status::Fhexpired,
        st.code_of() == 10015 <==> st == Nfs4Status::ShareDenied,
        st.code_of() == 10016 <==> st == Nfs4Status::Wrongsec,
        st.code_of() == 10017 <==> st == Nfs4Status::ClidInuse,
        st.code_of() == 10019 <==> st == Nfs4Status::Moved,
        st.code_of() == 10020 <==> st == Nfs4Status::Nofilehandle,
        st.code_of() == 10021 <==> st == Nfs4Status::MinorVersMismatch,
        st.code_of() == 10022 <==> st == Nfs4Status::StaleClientid,
        st.code_of() == 10023 <==> st == Nfs4Status::StaleStateid,
        st.code_of() == 10024 <==> st == Nfs4Status::OldStateid,
        st.code_of() == 10025 <==> st == Nfs4Status::BadStateid,
        st.code_of() == 10026 <==> st == Nfs4Status::BadSeqid,
        st.code_of() == 10027 <==> st == Nfs4Status::NotSame,
        st.code_of() == 10028 <==> st == Nfs4Status::LockRange,
        st.code_of() == 10029 <==> st == Nfs4Status::Symlink,
        st.code_of() == 10030 <==> st == Nfs4Status::Restorefh,
        st.code_of() == 10031 <==> st == Nfs4Status::LeaseMoved,
        st.code_of() == 10032 <==> st == Nfs4Status::AttrNotsupp,
        st.code_of() == 10033 <==> st == Nfs4Status::NoGrace,
        st.code_of() == 10034 <==> st == Nfs4Status::ReclaimBad,
        st.code_of() == 10035 <==> st == Nfs4Status::ReclaimConflict,
        st.code_of() == 10036 <==> st == Nfs4Status::BadXdr,
        st.code_of() == 10037 <==> st == Nfs4Status::LocksHeld,
        st.code_of() == 10038 <==> st == Nfs4Status::Openmode,
        st.code_of() == 10039 <==> st == Nfs4Status::BadOwner,
        st.code_of() == 10040 <==> st == Nfs4Status::Badchar,
        st.code_of() == 10041 <==> st == Nfs4Status::Badname,
        st.code_of() == 10042 <==> st == Nfs4Status::BadRange,
        st.code_of() == 10043 <==> st == Nfs4Status::LockNotsupp,
        st.code_of() == 10044 <==> st == Nfs4Status::OpIllegal,
        st.code_of() == 10045 <==> st == Nfs4Status::Deadlock,
        st.code_of() == 10046 <==> st == Nfs4Status::FileOpen,
        st.code_of() == 10047 <==> st == Nfs4Status::AdminRevoked,
        st.code_of() == 10048 <==> st == Nfs4Status::CbPathDown,
        st.code_of() == 10052 <==> st == Nfs4Status::BadSession,
        st.code_of() == 10053 <==> st == Nfs4Status::BadSlot,
        st.code_of() == 10054 <==> st == Nfs4Status::CompleteAlready,
        st.code_of() == 10055 <==> st == Nfs4Status::ConnNotBoundToSession,
        st.code_of() == 10056 <==> st == Nfs4Status::DelegAlreadyWanted,
        st.code_of() == 10057 <==> st == Nfs4Status::BackChanBusy,
        st.code_of() == 10058 <==> st == Nfs4Status::LayoutTrylater,
        st.code_of() == 10059 <==> st == Nfs4Status::LayoutUnavailable,
        st.code_of() == 10060 <==> st == Nfs4Status::NomatchingLayout,
        st.code_of() == 10061 <==> st == Nfs4Status::RecallConflict,
        st.code_of() == 10062 <==> st == Nfs4Status::UnknownLayouttype,
        st.code_of() == 10063 <==> st == Nfs4Status::SeqMisordered,
        st.code_of() == 10064 <==> st == Nfs4Status::SequencePos,
        st.code_of() == 10065 <==> st == Nfs4Status::ReqTooBig,
        st.code_of() == 10066 <==> st == Nfs4Status::RepTooBig,
        st.code_of() == 10067 <==> st == Nfs4Status::RepTooBigToCache,
        st.code_of() == 10068 <==> st == Nfs4Status::RetryUncachedRep,
        st.code_of() == 10069 <==> st == Nfs4Status::UnsafeCompound,
        st.code_of() == 10070 <==> st == Nfs4Status::TooManyOps,
        st.code_of() == 10071 <==> st == Nfs4Status::OpNotInSession,
        st.code_of() == 10072 <==> st == Nfs4Status::HashAlgUnsupported,
        st.code_of() == 10074 <==> st == Nfs4Status::ClientidBusy,
        st.code_of() == 10075 <==> st == Nfs4Status::PnfsIoHole,
        st.code_of() == 10076 <==> st == Nfs4Status::SeqFalseRetry,
        st.code_of() == 10077 <==> st == Nfs4Status::BadHighSlot,
        st.code_of() == 10078 <==> st == Nfs4Status::DeadSession,
        st.code_of() == 10079 <==> st == Nfs4Status::EncrAlgUnsupported,
        st.code_of() == 10080 <==> st == Nfs4Status::PnfsNoLayout,
        st.code_of() == 10081 <==> st == Nfs4Status::NotOnlyOp,
        st.code_of() == 10082 <==> st == Nfs4Status::WrongCred,
        st.code_of() == 10083 <==> st == Nfs4Status::WrongType,
        st.code_of() == 10084 <==> st == Nfs4Status::DirdelegUnavail,
        st.code_of() == 10085 <==> st == Nfs4Status::RejectDeleg,
        st.code_of() == 10086 <==> st == Nfs4Status::ReturnConflict,
        st.code_of() == 10087 <==> st == Nfs4Status::DelegRevoked,
{
}

/// What the storage fails with is what a client is told: that a file is not there or is there
/// already, that something is no directory or not empty, that there is no space, that it has to come
/// again, and so on.
pub proof fn law_failures_of_the_storage_are_told(e: FsErrorKind)
    ensures
        e.status_of() == Nfs4Status::Noent <==> e == FsErrorKind::FileNotFound,
        e.status_of() == Nfs4Status::Exist <==> e == FsErrorKind::FileAlreadyExists,
        e.status_of() == Nfs4Status::Notdir <==> e == FsErrorKind::ParentNotDir,
        e.status_of() == Nfs4Status::Notempty <==> e == FsErrorKind::DirNotEmpty,
        e.status_of() == Nfs4Status::Inval <==> e == FsErrorKind::InvalidPath || e
            == FsErrorKind::InvalidFileSize,
        e.status_of() == Nfs4Status::Nospc <==> e == FsErrorKind::DiskOutOfSpace,
        e.status_of() == Nfs4Status::Io <==> e == FsErrorKind::BlockInfo || e == FsErrorKind::IO,
        e.status_of() == Nfs4Status::Delay <==> e == FsErrorKind::BlockIsWriting || e
            == FsErrorKind::Timeout || e == FsErrorKind::InProgress,
        e.status_of() == Nfs4Status::Moved <==> e == FsErrorKind::NotLeaderMaster,
        e.status_of() == Nfs4Status::Expired <==> e == FsErrorKind::Lease || e
            == FsErrorKind::Expired,
        e.status_of() == Nfs4Status::Notsupp <==> e == FsErrorKind::Unsupported,
        e.status_of() == Nfs4Status::Serverfault <==> e == FsErrorKind::Other,
{
}

/// Each kind of file has its number in the protocol; a number that none has stands for a file.
pub proof fn law_kinds_of_file_have_their_numbers(v: u32)
    ensures
        1 <= v <= 9 ==> Nfs4FileType::of_code(v).code_of() == v,
        v < 1 || v > 9 ==> Nfs4FileType::of_code(v) == Nfs4FileType::Regular,
        Nfs4FileType::of_code(v) == Nfs4FileType::Directory <==> v == 2,
        Nfs4FileType::of_code(v) == Nfs4FileType::Block <==> v == 3,
        Nfs4FileType::of_code(v) == Nfs4FileType::Character <==> v == 4,
        Nfs4FileType::of_code(v) == Nfs4FileType::Link <==> v == 5,
        Nfs4FileType::of_code(v) == Nfs4FileType::Socket <==> v == 6,
        Nfs4FileType::of_code(v) == Nfs4FileType::Fifo <==> v == 7,
        Nfs4FileType::of_code(v) == Nfs4FileType::AttrDir <==> v == 8,
        Nfs4FileType::of_code(v) == Nfs4FileType::NamedAttr <==> v == 9,
{
}

/// Of the kinds that the storage knows, a directory is told as one (2), a link as one (5), and all
/// else as a file (1).
pub proof fn law_kinds_of_the_storage_are_told(ft: FileType)
    ensures
        Nfs4FileType::of_type(ft).code_of() == match ft {
            FileType::Dir => 2u32,
            FileType::Link => 5u32,
            _ => 1u32,
        },
{
}

/// The protocol that is spoken: its program, its version and its latest minor version, how long a
/// client stays known, and how many operations a request may have.
pub proof fn law_protocol_numbers()
    ensures
        NFS4_PROGRAM == 100_003,
        NFS4_VERSION == 4,
        NFS4_MINOR_VERSION == 1,
        DEFAULT_LEASE_TIME == 90,
        MAX_COMPOUND_OPS == 64,
{
}

/// What is told of a file is what the storage says of it: its length, mode, links, owner, group and
/// number, when it was read, and when it was changed, in seconds and parts of seconds. The space it
/// takes is its length, rounded up to whole blocks of 512 bytes.
pub proof fn law_file_is_told_as_the_storage_has_it(attrs: FileAttrs, status: FileStatus)
    requires
        attrs.is_of(status),
        0 <= status.len <= 0x7fff_ffff_ffff_fe00,
        0 <= status.mtime,
        0 <= status.atime,
    ensures
        attrs.size == status.len,
        attrs.used >= attrs.size,
        attrs.used < attrs.size + 512,
        attrs.used % 512 == 0,
        attrs.mode == status.mode,
        attrs.nlink == status.nlink,
        attrs.owner == status.owner,
        attrs.group == status.group,
        0 <= status.id ==> attrs.fileid == status.id,
        attrs.mtime.seconds * 1000 <= status.mtime < (attrs.mtime.seconds + 1) * 1000,
        attrs.mtime.nseconds == (status.mtime - attrs.mtime.seconds * 1000) * 1_000_000,
        attrs.atime.seconds * 1000 <= status.atime < (attrs.atime.seconds + 1) * 1000,
        attrs.atime.nseconds == (status.atime - attrs.atime.seconds * 1000) * 1_000_000,
        attrs.ctime == attrs.mtime,
{
}

/// Numbers go out with the most significant byte first, and are read that way.
pub proof fn law_numbers_start_with_the_greatest_byte(x: u32, y: u64)
    ensures
        be32(x).len() == 4,
        be32(x)[0] * 0x100_0000 + be32(x)[1] * 0x1_0000 + be32(x)[2] * 0x100 + be32(x)[3] == x,
        be64(y).len() == 8,
        be32_at(be64(y)) * 0x1_0000_0000 + be32_at(be64(y).skip(4)) == y,
        be32_at(be32(x)) == x,
        be64_at(be64(y)) == y,
{
    be32_round_trip(x, Seq::empty());
    be64_round_trip(y, Seq::empty());
    let hi = (y / 0x1_0000_0000) as u32;
    let lo = (y % 0x1_0000_0000) as u32;
    be32_round_trip(hi, be32(lo));
    be32_round_trip(lo, Seq::empty());
    assert(be32(x) + Seq::<u8>::empty() =~= be32(x));
    assert(be64(y) + Seq::<u8>::empty() =~= be64(y));
    assert(be64(y).skip(4) =~= be32(lo) + Seq::empty());
}

/// Handles are made of numbers that start with the least significant byte.
pub proof fn law_handles_start_with_the_least_byte(y: u64)
    ensures
        le64(y).len() == 8,
        le64(y)[0] == y % 256,
        le64(y)[1] == (y / 0x100) % 256,
        le64(y)[7] == y / 0x100_0000_0000_0000,
{
    let lo = (y % 0x1_0000_0000) as u32;
    let hi = (y / 0x1_0000_0000) as u32;
    assert((y % 0x1_0000_0000) % 256 == y % 256 && ((y % 0x1_0000_0000) / 0x100) % 256 == (y
        / 0x100) % 256 && (y / 0x1_0000_0000) / 0x100_0000 == y / 0x100_0000_0000_0000 && y
        / 0x1_0000_0000 <= u32::MAX) by (bit_vector);
}

} // verus!
