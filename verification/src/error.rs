//! Status codes and errors of the file protocol.

use crate::bytes::{be32, be32_at, be32_round_trip, need, put_u32, Reader, XdrError};
use crate::xdr::{Decode, XDR};
use vstd::prelude::*;

verus! {

/// The status of an operation.
#[derive(Clone, Copy, Debug, PartialEq, Eq, Structural)]
pub enum Nfs4Status {
    Success,
    Perm,
    Noent,
    Io,
    Nxio,
    Access,
    Exist,
    Xdev,
    Notdir,
    Isdir,
    Inval,
    Fbig,
    Nospc,
    Rofs,
    Mlink,
    Nametoolong,
    Notempty,
    Dquot,
    Stale,
    Badhandle,
    BadCookie,
    Notsupp,
    Toosmall,
    Serverfault,
    Badtype,
    Delay,
    Same,
    Denied,
    Expired,
    Locked,
    Grace,
    Fhexpired,
    ShareDenied,
    Wrongsec,
    ClidInuse,
    Moved,
    Nofilehandle,
    MinorVersMismatch,
    StaleClientid,
    StaleStateid,
    OldStateid,
    BadStateid,
    BadSeqid,
    NotSame,
    LockRange,
    Symlink,
    Restorefh,
    LeaseMoved,
    AttrNotsupp,
    NoGrace,
    ReclaimBad,
    ReclaimConflict,
    BadXdr,
    LocksHeld,
    Openmode,
    BadOwner,
    Badchar,
    Badname,
    BadRange,
    LockNotsupp,
    OpIllegal,
    Deadlock,
    FileOpen,
    AdminRevoked,
    CbPathDown,
    BadSession,
    BadSlot,
    CompleteAlready,
    ConnNotBoundToSession,
    DelegAlreadyWanted,
    BackChanBusy,
    LayoutTrylater,
    LayoutUnavailable,
    NomatchingLayout,
    RecallConflict,
    UnknownLayouttype,
    SeqMisordered,
    SequencePos,
    ReqTooBig,
    RepTooBig,
    RepTooBigToCache,
    RetryUncachedRep,
    UnsafeCompound,
    TooManyOps,
    OpNotInSession,
    HashAlgUnsupported,
    ClientidBusy,
    PnfsIoHole,
    SeqFalseRetry,
    BadHighSlot,
    DeadSession,
    EncrAlgUnsupported,
    PnfsNoLayout,
    NotOnlyOp,
    WrongCred,
    WrongType,
    DirdelegUnavail,
    RejectDeleg,
    ReturnConflict,
    DelegRevoked,
}

impl Nfs4Status {
    /// The number that stands for the status on the wire.
    pub open spec fn code_of(self) -> u32 {
        match self {
            Nfs4Status::Success => 0,
            Nfs4Status::Perm => 1,
            Nfs4Status::Noent => 2,
            Nfs4Status::Io => 5,
            Nfs4Status::Nxio => 6,
            Nfs4Status::Access => 13,
            Nfs4Status::Exist => 17,
            Nfs4Status::Xdev => 18,
            Nfs4Status::Notdir => 20,
            Nfs4Status::Isdir => 21,
            Nfs4Status::Inval => 22,
            Nfs4Status::Fbig => 27,
            Nfs4Status::Nospc => 28,
            Nfs4Status::Rofs => 30,
            Nfs4Status::Mlink => 31,
            Nfs4Status::Nametoolong => 63,
            Nfs4Status::Notempty => 66,
            Nfs4Status::Dquot => 69,
            Nfs4Status::Stale => 70,
            Nfs4Status::Badhandle => 10001,
            Nfs4Status::BadCookie => 10003,
            Nfs4Status::Notsupp => 10004,
            Nfs4Status::Toosmall => 10005,
            Nfs4Status::Serverfault => 10006,
            Nfs4Status::Badtype => 10007,
            Nfs4Status::Delay => 10008,
            Nfs4Status::Same => 10009,
            Nfs4Status::Denied => 10010,
            Nfs4Status::Expired => 10011,
            Nfs4Status::Locked => 10012,
            Nfs4Status::Grace => 10013,
            Nfs4Status::Fhexpired => 10014,
            Nfs4Status::ShareDenied => 10015,
            Nfs4Status::Wrongsec => 10016,
            Nfs4Status::ClidInuse => 10017,
            Nfs4Status::Moved => 10019,
            Nfs4Status::Nofilehandle => 10020,
            Nfs4Status::MinorVersMismatch => 10021,
            Nfs4Status::StaleClientid => 10022,
            Nfs4Status::StaleStateid => 10023,
            Nfs4Status::OldStateid => 10024,
            Nfs4Status::BadStateid => 10025,
            Nfs4Status::BadSeqid => 10026,
            Nfs4Status::NotSame => 10027,
            Nfs4Status::LockRange => 10028,
            Nfs4Status::Symlink => 10029,
            Nfs4Status::Restorefh => 10030,
            Nfs4Status::LeaseMoved => 10031,
            Nfs4Status::AttrNotsupp => 10032,
            Nfs4Status::NoGrace => 10033,
            Nfs4Status::ReclaimBad => 10034,
            Nfs4Status::ReclaimConflict => 10035,
            Nfs4Status::BadXdr => 10036,
            Nfs4Status::LocksHeld => 10037,
            Nfs4Status::Openmode => 10038,
            Nfs4Status::BadOwner => 10039,
            Nfs4Status::Badchar => 10040,
            Nfs4Status::Badname => 10041,
            Nfs4Status::BadRange => 10042,
            Nfs4Status::LockNotsupp => 10043,
            Nfs4Status::OpIllegal => 10044,
            Nfs4Status::Deadlock => 10045,
            Nfs4Status::FileOpen => 10046,
            Nfs4Status::AdminRevoked => 10047,
            Nfs4Status::CbPathDown => 10048,
            Nfs4Status::BadSession => 10052,
            Nfs4Status::BadSlot => 10053,
            Nfs4Status::CompleteAlready => 10054,
            Nfs4Status::ConnNotBoundToSession => 10055,
            Nfs4Status::DelegAlreadyWanted => 10056,
            Nfs4Status::BackChanBusy => 10057,
            Nfs4Status::LayoutTrylater => 10058,
            Nfs4Status::LayoutUnavailable => 10059,
            Nfs4Status::NomatchingLayout => 10060,
            Nfs4Status::RecallConflict => 10061,
            Nfs4Status::UnknownLayouttype => 10062,
            Nfs4Status::SeqMisordered => 10063,
            Nfs4Status::SequencePos => 10064,
            Nfs4Status::ReqTooBig => 10065,
            Nfs4Status::RepTooBig => 10066,
            Nfs4Status::RepTooBigToCache => 10067,
            Nfs4Status::RetryUncachedRep => 10068,
            Nfs4Status::UnsafeCompound => 10069,
            Nfs4Status::TooManyOps => 10070,
            Nfs4Status::OpNotInSession => 10071,
            Nfs4Status::HashAlgUnsupported => 10072,
            Nfs4Status::ClientidBusy => 10074,
            Nfs4Status::PnfsIoHole => 10075,
            Nfs4Status::SeqFalseRetry => 10076,
            Nfs4Status::BadHighSlot => 10077,
            Nfs4Status::DeadSession => 10078,
            Nfs4Status::EncrAlgUnsupported => 10079,
            Nfs4Status::PnfsNoLayout => 10080,
            Nfs4Status::NotOnlyOp => 10081,
            Nfs4Status::WrongCred => 10082,
            Nfs4Status::WrongType => 10083,
            Nfs4Status::DirdelegUnavail => 10084,
            Nfs4Status::RejectDeleg => 10085,
            Nfs4Status::ReturnConflict => 10086,
            Nfs4Status::DelegRevoked => 10087,
        }
    }

    /// The status that a number stands for; `Success` where it stands for none.
    pub open spec fn of_code(v: u32) -> Self {
        if exists|st: Nfs4Status| #[trigger] st.code_of() == v {
            choose|st: Nfs4Status| #[trigger] st.code_of() == v
        } else {
            Nfs4Status::Success
        }
    }

    /// The number that stands for the status on the wire.
    pub fn code(&self) -> (r: u32)
        ensures
            r == self.code_of(),
    {
        match self {
            Nfs4Status::Success => 0,
            Nfs4Status::Perm => 1,
            Nfs4Status::Noent => 2,
            Nfs4Status::Io => 5,
            Nfs4Status::Nxio => 6,
            Nfs4Status::Access => 13,
            Nfs4Status::Exist => 17,
            Nfs4Status::Xdev => 18,
            Nfs4Status::Notdir => 20,
            Nfs4Status::Isdir => 21,
            Nfs4Status::Inval => 22,
            Nfs4Status::Fbig => 27,
            Nfs4Status::Nospc => 28,
            Nfs4Status::Rofs => 30,
            Nfs4Status::Mlink => 31,
            Nfs4Status::Nametoolong => 63,
            Nfs4Status::Notempty => 66,
            Nfs4Status::Dquot => 69,
            Nfs4Status::Stale => 70,
            Nfs4Status::Badhandle => 10001,
            Nfs4Status::BadCookie => 10003,
            Nfs4Status::Notsupp => 10004,
            Nfs4Status::Toosmall => 10005,
            Nfs4Status::Serverfault => 10006,
            Nfs4Status::Badtype => 10007,
            Nfs4Status::Delay => 10008,
            Nfs4Status::Same => 10009,
            Nfs4Status::Denied => 10010,
            Nfs4Status::Expired => 10011,
            Nfs4Status::Locked => 10012,
            Nfs4Status::Grace => 10013,
            Nfs4Status::Fhexpired => 10014,
            Nfs4Status::ShareDenied => 10015,
            Nfs4Status::Wrongsec => 10016,
            Nfs4Status::ClidInuse => 10017,
            Nfs4Status::Moved => 10019,
            Nfs4Status::Nofilehandle => 10020,
            Nfs4Status::MinorVersMismatch => 10021,
            Nfs4Status::StaleClientid => 10022,
            Nfs4Status::StaleStateid => 10023,
            Nfs4Status::OldStateid => 10024,
            Nfs4Status::BadStateid => 10025,
            Nfs4Status::BadSeqid => 10026,
            Nfs4Status::NotSame => 10027,
            Nfs4Status::LockRange => 10028,
            Nfs4Status::Symlink => 10029,
            Nfs4Status::Restorefh => 10030,
            Nfs4Status::LeaseMoved => 10031,
            Nfs4Status::AttrNotsupp => 10032,
            Nfs4Status::NoGrace => 10033,
            Nfs4Status::ReclaimBad => 10034,
            Nfs4Status::ReclaimConflict => 10035,
            Nfs4Status::BadXdr => 10036,
            Nfs4Status::LocksHeld => 10037,
            Nfs4Status::Openmode => 10038,
            Nfs4Status::BadOwner => 10039,
            Nfs4Status::Badchar => 10040,
            Nfs4Status::Badname => 10041,
            Nfs4Status::BadRange => 10042,
            Nfs4Status::LockNotsupp => 10043,
            Nfs4Status::OpIllegal => 10044,
            Nfs4Status::Deadlock => 10045,
            Nfs4Status::FileOpen => 10046,
            Nfs4Status::AdminRevoked => 10047,
            Nfs4Status::CbPathDown => 10048,
            Nfs4Status::BadSession => 10052,
            Nfs4Status::BadSlot => 10053,
            Nfs4Status::CompleteAlready => 10054,
            Nfs4Status::ConnNotBoundToSession => 10055,
            Nfs4Status::DelegAlreadyWanted => 10056,
            Nfs4Status::BackChanBusy => 10057,
            Nfs4Status::LayoutTrylater => 10058,
            Nfs4Status::LayoutUnavailable => 10059,
            Nfs4Status::NomatchingLayout => 10060,
            Nfs4Status::RecallConflict => 10061,
            Nfs4Status::UnknownLayouttype => 10062,
            Nfs4Status::SeqMisordered => 10063,
            Nfs4Status::SequencePos => 10064,
            Nfs4Status::ReqTooBig => 10065,
            Nfs4Status::RepTooBig => 10066,
            Nfs4Status::RepTooBigToCache => 10067,
            Nfs4Status::RetryUncachedRep => 10068,
            Nfs4Status::UnsafeCompound => 10069,
            Nfs4Status::TooManyOps => 10070,
            Nfs4Status::OpNotInSession => 10071,
            Nfs4Status::HashAlgUnsupported => 10072,
            Nfs4Status::ClientidBusy => 10074,
            Nfs4Status::PnfsIoHole => 10075,
            Nfs4Status::SeqFalseRetry => 10076,
            Nfs4Status::BadHighSlot => 10077,
            Nfs4Status::DeadSession => 10078,
            Nfs4Status::EncrAlgUnsupported => 10079,
            Nfs4Status::PnfsNoLayout => 10080,
            Nfs4Status::NotOnlyOp => 10081,
            Nfs4Status::WrongCred => 10082,
            Nfs4Status::WrongType => 10083,
            Nfs4Status::DirdelegUnavail => 10084,
            Nfs4Status::RejectDeleg => 10085,
            Nfs4Status::ReturnConflict => 10086,
            Nfs4Status::DelegRevoked => 10087,
        }
    }
}

/// No two statuses share a number.
pub proof fn law_status_codes_differ(a: Nfs4Status, b: Nfs4Status)
    requires
        a.code_of() == b.code_of(),
    ensures
        a == b,
{
}

/// Every status is read back from its own number.
pub proof fn law_status_code_reads_back(st: Nfs4Status)
    ensures
        Nfs4Status::of_code(st.code_of()) == st,
{
    let back = Nfs4Status::of_code(st.code_of());
    law_status_codes_differ(back, st);
}

impl Default for Nfs4Status {
    fn default() -> (r: Self)
        ensures
            r == Nfs4Status::Success,
    {
        Nfs4Status::Success
    }
}

impl From<u32> for Nfs4Status {
    fn from(v: u32) -> (r: Self) {
        let st = match v {
            0 => Nfs4Status::Success,
            1 => Nfs4Status::Perm,
            2 => Nfs4Status::Noent,
            5 => Nfs4Status::Io,
            6 => Nfs4Status::Nxio,
            13 => Nfs4Status::Access,
            17 => Nfs4Status::Exist,
            18 => Nfs4Status::Xdev,
            20 => Nfs4Status::Notdir,
            21 => Nfs4Status::Isdir,
            22 => Nfs4Status::Inval,
            27 => Nfs4Status::Fbig,
            28 => Nfs4Status::Nospc,
            30 => Nfs4Status::Rofs,
            31 => Nfs4Status::Mlink,
            63 => Nfs4Status::Nametoolong,
            66 => Nfs4Status::Notempty,
            69 => Nfs4Status::Dquot,
            70 => Nfs4Status::Stale,
            10001 => Nfs4Status::Badhandle,
            10003 => Nfs4Status::BadCookie,
            10004 => Nfs4Status::Notsupp,
            10005 => Nfs4Status::Toosmall,
            10006 => Nfs4Status::Serverfault,
            10007 => Nfs4Status::Badtype,
            10008 => Nfs4Status::Delay,
            10009 => Nfs4Status::Same,
            10010 => Nfs4Status::Denied,
            10011 => Nfs4Status::Expired,
            10012 => Nfs4Status::Locked,
            10013 => Nfs4Status::Grace,
            10014 => Nfs4Status::Fhexpired,
            10015 => Nfs4Status::ShareDenied,
            10016 => Nfs4Status::Wrongsec,
            10017 => Nfs4Status::ClidInuse,
            10019 => Nfs4Status::Moved,
            10020 => Nfs4Status::Nofilehandle,
            10021 => Nfs4Status::MinorVersMismatch,
            10022 => Nfs4Status::StaleClientid,
            10023 => Nfs4Status::StaleStateid,
            10024 => Nfs4Status::OldStateid,
            10025 => Nfs4Status::BadStateid,
            10026 => Nfs4Status::BadSeqid,
            10027 => Nfs4Status::NotSame,
            10028 => Nfs4Status::LockRange,
            10029 => Nfs4Status::Symlink,
            10030 => Nfs4Status::Restorefh,
            10031 => Nfs4Status::LeaseMoved,
            10032 => Nfs4Status::AttrNotsupp,
            10033 => Nfs4Status::NoGrace,
            10034 => Nfs4Status::ReclaimBad,
            10035 => Nfs4Status::ReclaimConflict,
            10036 => Nfs4Status::BadXdr,
            10037 => Nfs4Status::LocksHeld,
            10038 => Nfs4Status::Openmode,
            10039 => Nfs4Status::BadOwner,
            10040 => Nfs4Status::Badchar,
            10041 => Nfs4Status::Badname,
            10042 => Nfs4Status::BadRange,
            10043 => Nfs4Status::LockNotsupp,
            10044 => Nfs4Status::OpIllegal,
            10045 => Nfs4Status::Deadlock,
            10046 => Nfs4Status::FileOpen,
            10047 => Nfs4Status::AdminRevoked,
            10048 => Nfs4Status::CbPathDown,
            10052 => Nfs4Status::BadSession,
            10053 => Nfs4Status::BadSlot,
            10054 => Nfs4Status::CompleteAlready,
            10055 => Nfs4Status::ConnNotBoundToSession,
            10056 => Nfs4Status::DelegAlreadyWanted,
            10057 => Nfs4Status::BackChanBusy,
            10058 => Nfs4Status::LayoutTrylater,
            10059 => Nfs4Status::LayoutUnavailable,
            10060 => Nfs4Status::NomatchingLayout,
            10061 => Nfs4Status::RecallConflict,
            10062 => Nfs4Status::UnknownLayouttype,
            10063 => Nfs4Status::SeqMisordered,
            10064 => Nfs4Status::SequencePos,
            10065 => Nfs4Status::ReqTooBig,
            10066 => Nfs4Status::RepTooBig,
            10067 => Nfs4Status::RepTooBigToCache,
            10068 => Nfs4Status::RetryUncachedRep,
            10069 => Nfs4Status::UnsafeCompound,
            10070 => Nfs4Status::TooManyOps,
            10071 => Nfs4Status::OpNotInSession,
            10072 => Nfs4Status::HashAlgUnsupported,
            10074 => Nfs4Status::ClientidBusy,
            10075 => Nfs4Status::PnfsIoHole,
            10076 => Nfs4Status::SeqFalseRetry,
            10077 => Nfs4Status::BadHighSlot,
            10078 => Nfs4Status::DeadSession,
            10079 => Nfs4Status::EncrAlgUnsupported,
            10080 => Nfs4Status::PnfsNoLayout,
            10081 => Nfs4Status::NotOnlyOp,
            10082 => Nfs4Status::WrongCred,
            10083 => Nfs4Status::WrongType,
            10084 => Nfs4Status::DirdelegUnavail,
            10085 => Nfs4Status::RejectDeleg,
            10086 => Nfs4Status::ReturnConflict,
            10087 => Nfs4Status::DelegRevoked,
            _ => Nfs4Status::Success,
        };
        proof {
            if st.code_of() == v {
                law_status_code_reads_back(st);
            }
        }
        st
    }
}

impl vstd::std_specs::convert::FromSpecImpl<u32> for Nfs4Status {
    open spec fn obeys_from_spec() -> bool {
        true
    }

    open spec fn from_spec(v: u32) -> Self {
        Nfs4Status::of_code(v)
    }
}

impl Decode for Nfs4Status {
    open spec fn decoded_len(s: Seq<u8>) -> Result<nat, XdrError> {
        need(s, 4)
    }

    open spec fn decodes_to(&self, s: Seq<u8>) -> bool {
        *self == Nfs4Status::of_code(be32_at(s))
    }

    fn decode(src: &mut Reader<'_>) -> (r: Result<Self, XdrError>) {
        let v: u32 = src.read_u32()?;
        Ok(Nfs4Status::from(v))
    }
}

impl XDR for Nfs4Status {
    open spec fn encodable(&self) -> bool {
        true
    }

    open spec fn encoding(&self) -> Seq<u8> {
        be32(self.code_of())
    }

    open spec fn readable(&self) -> bool {
        true
    }

    proof fn round_trip(&self, t: Seq<u8>) {
        be32_round_trip(self.code_of(), t);
        law_status_code_reads_back(*self);
    }

    fn serialize(&self, dest: &mut Vec<u8>) -> (r: Result<(), XdrError>) {
        put_u32(dest, self.code());
        Ok(())
    }
}

// ---------------------------------------------------------------------------
// Storage errors
// ---------------------------------------------------------------------------

/// What kind of error the storage behind the server reported.
#[derive(Clone, Copy, Debug, PartialEq, Eq, Structural)]
pub enum FsErrorKind {
    FileNotFound,
    FileAlreadyExists,
    ParentNotDir,
    DirNotEmpty,
    InvalidPath,
    InvalidFileSize,
    DiskOutOfSpace,
    BlockInfo,
    BlockIsWriting,
    NotLeaderMaster,
    Timeout,
    Lease,
    Expired,
    IO,
    Unsupported,
    InProgress,
    /// Any other error.
    Other,
}

impl FsErrorKind {
    /// The status that a client is told of.
    pub open spec fn status_of(self) -> Nfs4Status {
        match self {
            FsErrorKind::FileNotFound => Nfs4Status::Noent,
            FsErrorKind::FileAlreadyExists => Nfs4Status::Exist,
            FsErrorKind::ParentNotDir => Nfs4Status::Notdir,
            FsErrorKind::DirNotEmpty => Nfs4Status::Notempty,
            FsErrorKind::InvalidPath | FsErrorKind::InvalidFileSize => Nfs4Status::Inval,
            FsErrorKind::DiskOutOfSpace => Nfs4Status::Nospc,
            FsErrorKind::BlockInfo | FsErrorKind::IO => Nfs4Status::Io,
            FsErrorKind::BlockIsWriting | FsErrorKind::Timeout | FsErrorKind::InProgress =>
                Nfs4Status::Delay,
            FsErrorKind::NotLeaderMaster => Nfs4Status::Moved,
            FsErrorKind::Lease | FsErrorKind::Expired => Nfs4Status::Expired,
            FsErrorKind::Unsupported => Nfs4Status::Notsupp,
            FsErrorKind::Other => Nfs4Status::Serverfault,
        }
    }
}

impl From<FsErrorKind> for Nfs4Status {
    fn from(e: FsErrorKind) -> (r: Self) {
        match e {
            FsErrorKind::FileNotFound => Nfs4Status::Noent,
            FsErrorKind::FileAlreadyExists => Nfs4Status::Exist,
            FsErrorKind::ParentNotDir => Nfs4Status::Notdir,
            FsErrorKind::DirNotEmpty => Nfs4Status::Notempty,
            FsErrorKind::InvalidPath => Nfs4Status::Inval,
            FsErrorKind::InvalidFileSize => Nfs4Status::Inval,
            FsErrorKind::DiskOutOfSpace => Nfs4Status::Nospc,
            FsErrorKind::BlockInfo => Nfs4Status::Io,
            FsErrorKind::BlockIsWriting => Nfs4Status::Delay,
            FsErrorKind::NotLeaderMaster => Nfs4Status::Moved,
            FsErrorKind::Timeout => Nfs4Status::Delay,
            FsErrorKind::Lease => Nfs4Status::Expired,
            FsErrorKind::Expired => Nfs4Status::Expired,
            FsErrorKind::IO => Nfs4Status::Io,
            FsErrorKind::Unsupported => Nfs4Status::Notsupp,
            FsErrorKind::InProgress => Nfs4Status::Delay,
            FsErrorKind::Other => Nfs4Status::Serverfault,
        }
    }
}

impl vstd::std_specs::convert::FromSpecImpl<FsErrorKind> for Nfs4Status {
    open spec fn obeys_from_spec() -> bool {
        true
    }

    open spec fn from_spec(e: FsErrorKind) -> Self {
        e.status_of()
    }
}

// ---------------------------------------------------------------------------
// Errors
// ---------------------------------------------------------------------------

/// Why an operation failed: its status, and what there is to tell beyond it.
#[derive(Debug)]
pub struct Nfs4Error {
    pub status: Nfs4Status,
    /// For the server's own records.
    pub message: Option<String>,
    /// What else belongs to the failure. Only the status goes to the client.
    pub data: Option<Vec<u8>>,
}

/// What an operation comes to.
pub type Nfs4Result<T> = Result<T, Nfs4Error>;

impl Nfs4Error {
    /// A status alone.
    pub fn new(status: Nfs4Status) -> (r: Self)
        ensures
            r.status == status,
            r.message is None,
            r.data is None,
    {
        Nfs4Error { status, message: None, data: None }
    }

    /// A status with a message.
    pub fn with_message(status: Nfs4Status, message: String) -> (r: Self)
        ensures
            r.status == status,
            r.message == Some(message),
            r.data is None,
    {
        Nfs4Error { status, message: Some(message), data: None }
    }

    /// A status with what else belongs to the failure.
    pub fn with_data(status: Nfs4Status, data: Vec<u8>) -> (r: Self)
        ensures
            r.status == status,
            r.message is None,
            r.data == Some(data),
    {
        Nfs4Error { status, message: None, data: Some(data) }
    }

    /// The status.
    pub fn status(&self) -> (r: Nfs4Status)
        ensures
            r == self.status,
    {
        self.status
    }
}

/// A failure with the given status and nothing beyond it.
pub open spec fn fails_with<T>(r: Nfs4Result<T>, status: Nfs4Status) -> bool {
    match r {
        Ok(_) => false,
        Err(e) => e.status == status && e.message is None && e.data is None,
    }
}

/// A failure with the given status and nothing beyond it.
pub fn failure<T>(status: Nfs4Status) -> (r: Nfs4Result<T>)
    ensures
        fails_with(r, status),
{
    Err(Nfs4Error::new(status))
}

impl From<Nfs4Status> for Nfs4Error {
    fn from(status: Nfs4Status) -> (r: Self) {
        Nfs4Error { status, message: None, data: None }
    }
}

impl vstd::std_specs::convert::FromSpecImpl<Nfs4Status> for Nfs4Error {
    open spec fn obeys_from_spec() -> bool {
        true
    }

    open spec fn from_spec(status: Nfs4Status) -> Self {
        Nfs4Error { status, message: None, data: None }
    }
}

/// Input that cannot be read counts as an input error.
impl From<XdrError> for Nfs4Error {
    fn from(e: XdrError) -> (r: Self) {
        Nfs4Error { status: Nfs4Status::Io, message: None, data: None }
    }
}

impl vstd::std_specs::convert::FromSpecImpl<XdrError> for Nfs4Error {
    open spec fn obeys_from_spec() -> bool {
        true
    }

    open spec fn from_spec(e: XdrError) -> Self {
        Nfs4Error { status: Nfs4Status::Io, message: None, data: None }
    }
}

} // verus!
