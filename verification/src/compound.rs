//! A request is a row of operations, which share a context: the file that they are about, and the
//! session that they run in.

use crate::backchannel::{BackchannelConn, BackchannelManager};
use crate::client::ClientManager;
use crate::delegation::{DelegationConfig, DelegationManager};
use crate::error::{fails_with, failure, Nfs4Error, Nfs4Result, Nfs4Status};
use crate::fs::{file_of, FsConfig, Nfs4FileSystem, OpenFile};
use crate::grace::{GracePeriodManager, DEFAULT_GRACE_PERIOD_SECS, MAX_REFS};
use crate::lock::LockManager;
use crate::open::OpenManager;
use crate::pnfs::{verified_block_of, PnfsBlockHandle, PnfsDataServer};
use crate::rpc::auth_unix;
use crate::session::{SessionManager, DEFAULT_SLOT_COUNT};
use crate::time::{boot_time, Duration, NANOS_PER_SEC};
use crate::types::{Clientid4, FileStatus, Fileid4, Nfs4FileHandle, Sessionid4, Stateid4};
use vstd::prelude::*;

verus! {

/// An operation.
#[derive(Copy, Clone, Debug, PartialEq, Eq, Structural)]
pub enum Nfs4Op {
    Access,
    Close,
    Commit,
    Create,
    Delegpurge,
    Delegreturn,
    Getattr,
    Getfh,
    Link,
    Lock,
    Lockt,
    Locku,
    Lookup,
    Lookupp,
    Nverify,
    Open,
    Openattr,
    OpenConfirm,
    OpenDowngrade,
    Putfh,
    Putpubfh,
    Putrootfh,
    Read,
    Readdir,
    Readlink,
    Remove,
    Rename,
    Renew,
    Restorefh,
    Savefh,
    Secinfo,
    Setattr,
    Setclientid,
    SetclientidConfirm,
    Verify,
    Write,
    ReleaseLockowner,
    BackchannelCtl,
    BindConnToSession,
    ExchangeId,
    CreateSession,
    DestroySession,
    FreeStateid,
    GetDirDelegation,
    Getdeviceinfo,
    Getdevicelist,
    Layoutcommit,
    Layoutget,
    Layoutreturn,
    SecinfoNoName,
    Sequence,
    SetSsv,
    TestStateid,
    WantDelegation,
    DestroyClientid,
    ReclaimComplete,
    Illegal,
}

impl Nfs4Op {
    /// The number that stands for the value on the wire.
    pub open spec fn code_of(self) -> u32 {
        match self {
            Nfs4Op::Access => 3,
            Nfs4Op::Close => 4,
            Nfs4Op::Commit => 5,
            Nfs4Op::Create => 6,
            Nfs4Op::Delegpurge => 7,
            Nfs4Op::Delegreturn => 8,
            Nfs4Op::Getattr => 9,
            Nfs4Op::Getfh => 10,
            Nfs4Op::Link => 11,
            Nfs4Op::Lock => 12,
            Nfs4Op::Lockt => 13,
            Nfs4Op::Locku => 14,
            Nfs4Op::Lookup => 15,
            Nfs4Op::Lookupp => 16,
            Nfs4Op::Nverify => 17,
            Nfs4Op::Open => 18,
            Nfs4Op::Openattr => 19,
            Nfs4Op::OpenConfirm => 20,
            Nfs4Op::OpenDowngrade => 21,
            Nfs4Op::Putfh => 22,
            Nfs4Op::Putpubfh => 23,
            Nfs4Op::Putrootfh => 24,
            Nfs4Op::Read => 25,
            Nfs4Op::Readdir => 26,
            Nfs4Op::Readlink => 27,
            Nfs4Op::Remove => 28,
            Nfs4Op::Rename => 29,
            Nfs4Op::Renew => 30,
            Nfs4Op::Restorefh => 31,
            Nfs4Op::Savefh => 32,
            Nfs4Op::Secinfo => 33,
            Nfs4Op::Setattr => 34,
            Nfs4Op::Setclientid => 35,
            Nfs4Op::SetclientidConfirm => 36,
            Nfs4Op::Verify => 37,
            Nfs4Op::Write => 38,
            Nfs4Op::ReleaseLockowner => 39,
            Nfs4Op::BackchannelCtl => 40,
            Nfs4Op::BindConnToSession => 41,
            Nfs4Op::ExchangeId => 42,
            Nfs4Op::CreateSession => 43,
            Nfs4Op::DestroySession => 44,
            Nfs4Op::FreeStateid => 45,
            Nfs4Op::GetDirDelegation => 46,
            Nfs4Op::Getdeviceinfo => 47,
            Nfs4Op::Getdevicelist => 48,
            Nfs4Op::Layoutcommit => 49,
            Nfs4Op::Layoutget => 50,
            Nfs4Op::Layoutreturn => 51,
            Nfs4Op::SecinfoNoName => 52,
            Nfs4Op::Sequence => 53,
            Nfs4Op::SetSsv => 54,
            Nfs4Op::TestStateid => 55,
            Nfs4Op::WantDelegation => 56,
            Nfs4Op::DestroyClientid => 57,
            Nfs4Op::ReclaimComplete => 58,
            Nfs4Op::Illegal => 10044,
        }
    }

    /// The value that a number stands for; `Illegal` where it stands for none.
    pub open spec fn of_code(v: u32) -> Self {
        if v == 3 {
            Nfs4Op::Access
        } else if v == 4 {
            Nfs4Op::Close
        } else if v == 5 {
            Nfs4Op::Commit
        } else if v == 6 {
            Nfs4Op::Create
        } else if v == 7 {
            Nfs4Op::Delegpurge
        } else if v == 8 {
            Nfs4Op::Delegreturn
        } else if v == 9 {
            Nfs4Op::Getattr
        } else if v == 10 {
            Nfs4Op::Getfh
        } else if v == 11 {
            Nfs4Op::Link
        } else if v == 12 {
            Nfs4Op::Lock
        } else if v == 13 {
            Nfs4Op::Lockt
        } else if v == 14 {
            Nfs4Op::Locku
        } else if v == 15 {
            Nfs4Op::Lookup
        } else if v == 16 {
            Nfs4Op::Lookupp
        } else if v == 17 {
            Nfs4Op::Nverify
        } else if v == 18 {
            Nfs4Op::Open
        } else if v == 19 {
            Nfs4Op::Openattr
        } else if v == 20 {
            Nfs4Op::OpenConfirm
        } else if v == 21 {
            Nfs4Op::OpenDowngrade
        } else if v == 22 {
            Nfs4Op::Putfh
        } else if v == 23 {
            Nfs4Op::Putpubfh
        } else if v == 24 {
            Nfs4Op::Putrootfh
        } else if v == 25 {
            Nfs4Op::Read
        } else if v == 26 {
            Nfs4Op::Readdir
        } else if v == 27 {
            Nfs4Op::Readlink
        } else if v == 28 {
            Nfs4Op::Remove
        } else if v == 29 {
            Nfs4Op::Rename
        } else if v == 30 {
            Nfs4Op::Renew
        } else if v == 31 {
            Nfs4Op::Restorefh
        } else if v == 32 {
            Nfs4Op::Savefh
        } else if v == 33 {
            Nfs4Op::Secinfo
        } else if v == 34 {
            Nfs4Op::Setattr
        } else if v == 35 {
            Nfs4Op::Setclientid
        } else if v == 36 {
            Nfs4Op::SetclientidConfirm
        } else if v == 37 {
            Nfs4Op::Verify
        } else if v == 38 {
            Nfs4Op::Write
        } else if v == 39 {
            Nfs4Op::ReleaseLockowner
        } else if v == 40 {
            Nfs4Op::BackchannelCtl
        } else if v == 41 {
            Nfs4Op::BindConnToSession
        } else if v == 42 {
            Nfs4Op::ExchangeId
        } else if v == 43 {
            Nfs4Op::CreateSession
        } else if v == 44 {
            Nfs4Op::DestroySession
        } else if v == 45 {
            Nfs4Op::FreeStateid
        } else if v == 46 {
            Nfs4Op::GetDirDelegation
        } else if v == 47 {
            Nfs4Op::Getdeviceinfo
        } else if v == 48 {
            Nfs4Op::Getdevicelist
        } else if v == 49 {
            Nfs4Op::Layoutcommit
        } else if v == 50 {
            Nfs4Op::Layoutget
        } else if v == 51 {
            Nfs4Op::Layoutreturn
        } else if v == 52 {
            Nfs4Op::SecinfoNoName
        } else if v == 53 {
            Nfs4Op::Sequence
        } else if v == 54 {
            Nfs4Op::SetSsv
        } else if v == 55 {
            Nfs4Op::TestStateid
        } else if v == 56 {
            Nfs4Op::WantDelegation
        } else if v == 57 {
            Nfs4Op::DestroyClientid
        } else if v == 58 {
            Nfs4Op::ReclaimComplete
        } else {
            Nfs4Op::Illegal
        }
    }

    /// The number that stands for the value on the wire.
    pub fn code(&self) -> (r: u32)
        ensures
            r == self.code_of(),
    {
        match self {
            Nfs4Op::Access => 3,
            Nfs4Op::Close => 4,
            Nfs4Op::Commit => 5,
            Nfs4Op::Create => 6,
            Nfs4Op::Delegpurge => 7,
            Nfs4Op::Delegreturn => 8,
            Nfs4Op::Getattr => 9,
            Nfs4Op::Getfh => 10,
            Nfs4Op::Link => 11,
            Nfs4Op::Lock => 12,
            Nfs4Op::Lockt => 13,
            Nfs4Op::Locku => 14,
            Nfs4Op::Lookup => 15,
            Nfs4Op::Lookupp => 16,
            Nfs4Op::Nverify => 17,
            Nfs4Op::Open => 18,
            Nfs4Op::Openattr => 19,
            Nfs4Op::OpenConfirm => 20,
            Nfs4Op::OpenDowngrade => 21,
            Nfs4Op::Putfh => 22,
            Nfs4Op::Putpubfh => 23,
            Nfs4Op::Putrootfh => 24,
            Nfs4Op::Read => 25,
            Nfs4Op::Readdir => 26,
            Nfs4Op::Readlink => 27,
            Nfs4Op::Remove => 28,
            Nfs4Op::Rename => 29,
            Nfs4Op::Renew => 30,
            Nfs4Op::Restorefh => 31,
            Nfs4Op::Savefh => 32,
            Nfs4Op::Secinfo => 33,
            Nfs4Op::Setattr => 34,
            Nfs4Op::Setclientid => 35,
            Nfs4Op::SetclientidConfirm => 36,
            Nfs4Op::Verify => 37,
            Nfs4Op::Write => 38,
            Nfs4Op::ReleaseLockowner => 39,
            Nfs4Op::BackchannelCtl => 40,
            Nfs4Op::BindConnToSession => 41,
            Nfs4Op::ExchangeId => 42,
            Nfs4Op::CreateSession => 43,
            Nfs4Op::DestroySession => 44,
            Nfs4Op::FreeStateid => 45,
            Nfs4Op::GetDirDelegation => 46,
            Nfs4Op::Getdeviceinfo => 47,
            Nfs4Op::Getdevicelist => 48,
            Nfs4Op::Layoutcommit => 49,
            Nfs4Op::Layoutget => 50,
            Nfs4Op::Layoutreturn => 51,
            Nfs4Op::SecinfoNoName => 52,
            Nfs4Op::Sequence => 53,
            Nfs4Op::SetSsv => 54,
            Nfs4Op::TestStateid => 55,
            Nfs4Op::WantDelegation => 56,
            Nfs4Op::DestroyClientid => 57,
            Nfs4Op::ReclaimComplete => 58,
            Nfs4Op::Illegal => 10044,
        }
    }

    /// The value that a number stands for.
    pub fn from_code(v: u32) -> (r: Self)
        ensures
            r == Self::of_code(v),
    {
        match v {
            3 => Nfs4Op::Access,
            4 => Nfs4Op::Close,
            5 => Nfs4Op::Commit,
            6 => Nfs4Op::Create,
            7 => Nfs4Op::Delegpurge,
            8 => Nfs4Op::Delegreturn,
            9 => Nfs4Op::Getattr,
            10 => Nfs4Op::Getfh,
            11 => Nfs4Op::Link,
            12 => Nfs4Op::Lock,
            13 => Nfs4Op::Lockt,
            14 => Nfs4Op::Locku,
            15 => Nfs4Op::Lookup,
            16 => Nfs4Op::Lookupp,
            17 => Nfs4Op::Nverify,
            18 => Nfs4Op::Open,
            19 => Nfs4Op::Openattr,
            20 => Nfs4Op::OpenConfirm,
            21 => Nfs4Op::OpenDowngrade,
            22 => Nfs4Op::Putfh,
            23 => Nfs4Op::Putpubfh,
            24 => Nfs4Op::Putrootfh,
            25 => Nfs4Op::Read,
            26 => Nfs4Op::Readdir,
            27 => Nfs4Op::Readlink,
            28 => Nfs4Op::Remove,
            29 => Nfs4Op::Rename,
            30 => Nfs4Op::Renew,
            31 => Nfs4Op::Restorefh,
            32 => Nfs4Op::Savefh,
            33 => Nfs4Op::Secinfo,
            34 => Nfs4Op::Setattr,
            35 => Nfs4Op::Setclientid,
            36 => Nfs4Op::SetclientidConfirm,
            37 => Nfs4Op::Verify,
            38 => Nfs4Op::Write,
            39 => Nfs4Op::ReleaseLockowner,
            40 => Nfs4Op::BackchannelCtl,
            41 => Nfs4Op::BindConnToSession,
            42 => Nfs4Op::ExchangeId,
            43 => Nfs4Op::CreateSession,
            44 => Nfs4Op::DestroySession,
            45 => Nfs4Op::FreeStateid,
            46 => Nfs4Op::GetDirDelegation,
            47 => Nfs4Op::Getdeviceinfo,
            48 => Nfs4Op::Getdevicelist,
            49 => Nfs4Op::Layoutcommit,
            50 => Nfs4Op::Layoutget,
            51 => Nfs4Op::Layoutreturn,
            52 => Nfs4Op::SecinfoNoName,
            53 => Nfs4Op::Sequence,
            54 => Nfs4Op::SetSsv,
            55 => Nfs4Op::TestStateid,
            56 => Nfs4Op::WantDelegation,
            57 => Nfs4Op::DestroyClientid,
            58 => Nfs4Op::ReclaimComplete,
            _ => Nfs4Op::Illegal,
        }
    }
}

impl From<u32> for Nfs4Op {
    fn from(v: u32) -> (r: Self) {
        Nfs4Op::from_code(v)
    }
}

impl vstd::std_specs::convert::FromSpecImpl<u32> for Nfs4Op {
    open spec fn obeys_from_spec() -> bool {
        true
    }

    open spec fn from_spec(v: u32) -> Self {
        Nfs4Op::of_code(v)
    }
}

/// Each operation is told by its number.
pub proof fn law_operation_number_reads_back(op: Nfs4Op)
    ensures
        Nfs4Op::of_code(op.code_of()) == op,
{
}

// ---------------------------------------------------------------------------
// Context
// ---------------------------------------------------------------------------

/// What the operations of a request share.
#[derive(Debug)]
pub struct CompoundContext {
    pub current_fh: Option<Nfs4FileHandle>,
    pub saved_fh: Option<Nfs4FileHandle>,
    pub current_stateid: Option<Stateid4>,
    pub sessionid: Option<Sessionid4>,
    pub slot_id: Option<u32>,
    pub clientid: Option<Clientid4>,
    pub minor_version: u32,
    pub cachethis: bool,
    pub op_count: usize,
    /// Who the request comes from.
    pub auth: auth_unix,
}

impl CompoundContext {
    /// A context in which nothing has happened.
    pub open spec fn is_new(&self, minor_version: u32) -> bool {
        &&& self.current_fh is None
        &&& self.saved_fh is None
        &&& self.current_stateid is None
        &&& self.sessionid is None
        &&& self.slot_id is None
        &&& self.clientid is None
        &&& self.minor_version == minor_version
        &&& !self.cachethis
        &&& self.op_count == 0
    }

    /// The context of a request of the latest version.
    pub fn new() -> (r: Self)
        ensures
            r.is_new(1),
    {
        Self::with_minor_version(1)
    }

    /// The context of a request of the given version.
    pub fn with_minor_version(minor_version: u32) -> (r: Self)
        ensures
            r.is_new(minor_version),
    {
        CompoundContext {
            current_fh: None,
            saved_fh: None,
            current_stateid: None,
            sessionid: None,
            slot_id: None,
            clientid: None,
            minor_version,
            cachethis: false,
            op_count: 0,
            auth: auth_unix::default(),
        }
    }

    /// Whether the request is of the version before sessions.
    pub fn is_v40(&self) -> (r: bool)
        ensures
            r == (self.minor_version == 0),
    {
        self.minor_version == 0
    }

    /// Whether the request is of the version with sessions.
    pub fn is_v41(&self) -> (r: bool)
        ensures
            r == (self.minor_version == 1),
    {
        self.minor_version == 1
    }

    /// The handle that the operations are about.
    pub fn require_current_fh(&self) -> (r: Nfs4Result<&Nfs4FileHandle>)
        ensures
            match self.current_fh {
                Some(fh) => r is Ok && *r->Ok_0 == fh,
                None => fails_with(r, Nfs4Status::Nofilehandle),
            },
    {
        match &self.current_fh {
            Some(fh) => Ok(fh),
            None => failure(Nfs4Status::Nofilehandle),
        }
    }

    /// `self` is `before` with another handle.
    pub open spec fn is_at(&self, before: CompoundContext, fh: Seq<u8>) -> bool {
        &&& self.current_fh is Some
        &&& self.current_fh->Some_0@ == fh
        &&& *self == CompoundContext { current_fh: self.current_fh, ..before }
    }
}

impl Default for CompoundContext {
    fn default() -> (r: Self)
        ensures
            r.is_new(1),
    {
        Self::new()
    }
}

// ---------------------------------------------------------------------------
// The server
// ---------------------------------------------------------------------------

/// All that the server knows.
pub struct CompoundHandler {
    pub sessions: SessionManager,
    pub clients: ClientManager,
    pub opens: OpenManager,
    pub locks: LockManager,
    pub fs: Nfs4FileSystem,
    pub backchannel: BackchannelManager,
    pub delegations: DelegationManager,
    pub grace: GracePeriodManager,
    /// When the server started.
    pub boot_time: u64,
    /// Reads blocks that are kept here, where any are.
    pub data_server: Option<PnfsDataServer>,
}

/// The file that the operations are about, or what is wrong with the handle.
pub open spec fn target_of(generation: u64, fh: Option<Nfs4FileHandle>) -> Result<
    Fileid4,
    Nfs4Status,
> {
    match fh {
        Some(fh) => file_of(generation, fh@),
        None => Err(Nfs4Status::Nofilehandle),
    }
}

impl CompoundHandler {
    /// Each part is in order.
    pub open spec fn wf(&self) -> bool {
        &&& self.sessions.wf()
        &&& self.clients.wf()
        &&& self.opens.wf()
        &&& self.locks.wf()
        &&& self.fs.wf()
        &&& self.backchannel.wf()
        &&& self.delegations.wf()
        &&& self.grace.wf()
    }

    /// Whether there are numbers left for a session.
    pub open spec fn can_make_session(&self) -> bool {
        self.sessions.next_session_id < u64::MAX
    }

    /// Whether there are numbers left for opening a file, and another operation can be told how
    /// the grace period stands.
    pub open spec fn can_open(&self) -> bool {
        self.opens.next_stateid < u32::MAX && self.grace.refs < MAX_REFS
    }

    /// Whether there are numbers left for a lock, and another operation can be told how the grace
    /// period stands.
    pub open spec fn can_lock(&self) -> bool {
        self.locks.next_stateid < u32::MAX && self.grace.refs < MAX_REFS
    }

    /// Whether there are numbers left for what an operation hands out; most hand out none.
    pub open spec fn has_room(&self, op: Nfs4Op) -> bool {
        match op {
            Nfs4Op::Open => self.can_open(),
            Nfs4Op::Lock => self.can_lock(),
            _ => true,
        }
    }

    /// Whether there are numbers left for what an operation hands out.
    pub fn can_go_on(&self, op: Nfs4Op) -> (r: bool)
        ensures
            r == self.has_room(op),
    {
        match op {
            Nfs4Op::Open => self.opens.next_stateid < u32::MAX && self.grace.refs < MAX_REFS,
            Nfs4Op::Lock => self.locks.next_stateid < u32::MAX && self.grace.refs < MAX_REFS,
            _ => true,
        }
    }

    /// A server that has just started.
    pub fn new(config: FsConfig, delegation: DelegationConfig) -> (r: Self)
        requires
            config.wf(),
        ensures
            r.wf(),
            forall|op: Nfs4Op| #[trigger] r.has_room(op),
            r.can_make_session(),
            r.sessions.sessions@.dom() == Set::<u128>::empty(),
            r.sessions.next_session_id == 1,
            r.sessions.default_slot_count == DEFAULT_SLOT_COUNT,
            r.clients.clients@.dom() == Set::<u64>::empty(),
            r.opens.states@.dom() == Set::<u128>::empty(),
            r.locks.lock_states@.dom() == Set::<u128>::empty(),
            r.delegations.delegations@.dom() == Set::<u64>::empty(),
            r.delegations.enabled == delegation.enabled,
            r.delegations.max_delegations == delegation.max_delegations,
            r.delegations.recall_timeout.nanos == delegation.recall_timeout_secs * 1_000_000_000,
            r.delegations.next_stateid == 1,
            r.clients.next_clientid == 1,
            r.opens.next_stateid == 1,
            r.locks.next_stateid == 1,
            !r.grace.active,
            !r.grace.change_req,
            r.grace.refs == 0,
            r.grace.start_time is None,
            r.grace.sticky_grace,
            !r.grace.graceless,
            !r.grace.shutdown,
            r.grace.recovery_backend is None,
            r.grace.duration.nanos == DEFAULT_GRACE_PERIOD_SECS * NANOS_PER_SEC,
            r.fs.config == config,
            r.fs.path_cache.paths() == Map::<u64, Seq<char>>::empty(),
            r.fs.statuses() == Map::<u64, FileStatus>::empty(),
            r.fs.contents() == Map::<u64, Seq<u8>>::empty(),
            r.fs.open_files@ == Map::<u64, OpenFile>::empty(),
            r.backchannel.channels@ == Map::<u128, BackchannelConn>::empty(),
            r.backchannel.inflight@ == Map::<u32, u128>::empty(),
            r.backchannel.next_xid == 1,
            exists|t: Duration| r.boot_time == #[trigger] t.secs(),
            r.data_server is None,
    {
        let r = CompoundHandler {
            sessions: SessionManager::new(),
            clients: ClientManager::new(),
            opens: OpenManager::new(),
            locks: LockManager::new(),
            fs: Nfs4FileSystem::new(config),
            backchannel: BackchannelManager::new(),
            delegations: DelegationManager::with_config(delegation),
            grace: GracePeriodManager::with_default_config(),
            boot_time: boot_time(),
            data_server: None,
        };
        assert(r.sessions.sessions@.dom() =~= Set::<u128>::empty());
        assert(r.clients.clients@.dom() =~= Set::<u64>::empty());
        assert(r.opens.states@.dom() =~= Set::<u128>::empty());
        assert(r.locks.lock_states@.dom() =~= Set::<u128>::empty());
        assert(r.delegations.delegations@.dom() =~= Set::<u64>::empty());
        r
    }

    /// From now on blocks are read here.
    pub fn set_data_server(&mut self, server: PnfsDataServer)
        ensures
            *final(self) == (CompoundHandler { data_server: Some(server), ..*old(self) }),
    {
        self.data_server = Some(server);
    }

    /// The block that a handle leads to, if it leads to one. One of another server's block is
    /// stale here.
    pub open spec fn block_target(
        &self,
        fh: Seq<u8>,
    ) -> Result<Option<PnfsBlockHandle>, Nfs4Status> {
        match self.data_server {
            None => Ok(None),
            Some(ds) => match verified_block_of(fh, ds.verifier@, ds.storage_types) {
                None => Ok(None),
                Some(h) => if h.worker_id == ds.local_worker.worker_id {
                    Ok(Some(h))
                } else {
                    Err(Nfs4Status::Stale)
                },
            },
        }
    }

    /// The block that a handle leads to, if it leads to one.
    pub fn pnfs_block_handle(&self, fh: &Nfs4FileHandle) -> (r: Nfs4Result<Option<PnfsBlockHandle>>)
        ensures
            match self.block_target(fh@) {
                Ok(h) => r is Ok && r->Ok_0 == h,
                Err(st) => fails_with(r, st),
            },
    {
        match &self.data_server {
            None => Ok(None),
            Some(ds) => ds.resolve_handle(fh),
        }
    }

    /// Whether an operation has to run in a session.
    pub open spec fn in_session(op: Nfs4Op) -> bool {
        !(op is ExchangeId || op is CreateSession || op is DestroySession || op is DestroyClientid
            || op is BindConnToSession || op is Illegal)
    }

    /// Whether an operation has to run in a session.
    pub fn requires_sequence(op: Nfs4Op) -> (r: bool)
        ensures
            r == Self::in_session(op),
    {
        match op {
            Nfs4Op::ExchangeId | Nfs4Op::CreateSession | Nfs4Op::DestroySession
            | Nfs4Op::DestroyClientid | Nfs4Op::BindConnToSession | Nfs4Op::Illegal => false,
            _ => true,
        }
    }

    /// Refuses an operation that has to run in a session and does not. Before sessions, all
    /// operations ran without.
    pub fn check_sequence(&self, ctx: &CompoundContext, op: Nfs4Op) -> (r: Nfs4Result<()>)
        ensures
            if ctx.minor_version != 0 && Self::in_session(op) && ctx.sessionid is None {
                fails_with(r, Nfs4Status::OpNotInSession)
            } else {
                r is Ok
            },
    {
        if ctx.is_v40() {
            return Ok(());
        }
        if Self::requires_sequence(op) && ctx.sessionid.is_none() {
            return failure(Nfs4Status::OpNotInSession);
        }
        Ok(())
    }

    /// The file that the operations are about.
    pub open spec fn target(&self, ctx: CompoundContext) -> Result<Fileid4, Nfs4Status> {
        target_of(self.fs.config.cluster_generation, ctx.current_fh)
    }

    /// The file that the operations are about.
    pub fn current_file(&self, ctx: &CompoundContext) -> (r: Nfs4Result<Fileid4>)
        ensures
            match self.target(*ctx) {
                Ok(f) => r == Ok::<u64, Nfs4Error>(f),
                Err(st) => fails_with(r, st),
            },
    {
        let fh = ctx.require_current_fh()?;
        self.fs.fh_to_fileid(fh)
    }

    /// The file of the handle that was saved.
    pub fn saved_file(&self, ctx: &CompoundContext) -> (r: Nfs4Result<Fileid4>)
        ensures
            match target_of(self.fs.config.cluster_generation, ctx.saved_fh) {
                Ok(f) => r == Ok::<u64, Nfs4Error>(f),
                Err(st) => fails_with(r, st),
            },
    {
        match &ctx.saved_fh {
            Some(fh) => self.fs.fh_to_fileid(fh),
            None => failure(Nfs4Status::Nofilehandle),
        }
    }

    /// What is left when all that a client has is taken away: nothing of the client, and all else.
    pub open spec fn has_cleaned_up(&self, before: &CompoundHandler, clientid: Clientid4) -> bool {
        &&& forall|f: u64| #[trigger]
            self.delegations.delegations@.contains_key(f)
                <==> before.delegations.delegations@.contains_key(f)
                && before.delegations.delegations@[f].clientid != clientid
        &&& forall|f: u64| #[trigger]
            self.delegations.delegations@.contains_key(f) ==> self.delegations.delegations@[f]
                == before.delegations.delegations@[f]
        &&& forall|k: u128| #[trigger]
            self.opens.states@.contains_key(k) <==> before.opens.states@.contains_key(k)
                && before.opens.states@[k].clientid != clientid
        &&& forall|k: u128| #[trigger]
            self.opens.states@.contains_key(k) ==> self.opens.states@[k] == before.opens.states@[k]
        &&& forall|k: u128| #[trigger]
            self.locks.lock_states@.contains_key(k) <==> before.locks.lock_states@.contains_key(k)
                && before.locks.lock_states@[k].owner.clientid != clientid
        &&& forall|k: u128| #[trigger]
            self.locks.lock_states@.contains_key(k) ==> self.locks.lock_states@[k]
                == before.locks.lock_states@[k]
        &&& forall|k: u128| #[trigger]
            self.sessions.sessions@.contains_key(k) <==> before.sessions.sessions@.contains_key(k)
                && before.sessions.sessions@[k].clientid != clientid
        &&& forall|k: u128| #[trigger]
            self.sessions.sessions@.contains_key(k) ==> self.sessions.sessions@[k]
                == before.sessions.sessions@[k]
        &&& self.clients.clients@ == before.clients.clients@.remove(clientid)
        &&& self.clients.next_clientid == before.clients.next_clientid
        &&& self.clients.boot_time == before.clients.boot_time
        &&& self.clients.clock == before.clients.clock
        &&& self.fs == before.fs
        &&& self.backchannel == before.backchannel
        &&& self.grace == before.grace
        &&& self.boot_time == before.boot_time
        &&& self.data_server == before.data_server
    }

    /// Takes all away that a client has: delegations, opens, locks and sessions, and forgets the
    /// client. Gives the files that are to be closed, one for each open.
    pub fn cleanup_client(&mut self, clientid: Clientid4) -> (r: Vec<Fileid4>)
        requires
            old(self).wf(),
        ensures
            final(self).wf(),
            final(self).has_cleaned_up(old(self), clientid),
            r@.len() == old(self).opens.client_opens.of(clientid).len(),
            forall|i: int|
                0 <= i < r@.len() ==> #[trigger] r@[i] == old(
                    self,
                ).opens.states@[old(self).opens.client_opens.of(clientid)[i]].fileid,
    {
        self.delegations.revoke_all_for_client(clientid);
        let states = self.opens.get_client_opens(clientid);
        let mut files: Vec<u64> = Vec::new();
        let mut i: usize = 0;
        while i < states.len()
            invariant
                i <= states@.len(),
                files@.len() == i,
                forall|j: int| 0 <= j < i ==> #[trigger] files@[j] == states@[j].fileid,
            decreases states.len() - i,
        {
            files.push(states[i].fileid);
            i = i + 1;
        }
        self.opens.close_all_for_client(clientid);
        self.locks.release_all_for_client(clientid);
        self.sessions.destroy_client_sessions(clientid);
        self.clients.purge_client(clientid);
        files
    }
}

/// Once all that a client has was taken away, nothing is left of it.
pub proof fn law_cleaned_up_client_has_nothing(
    before: CompoundHandler,
    after: CompoundHandler,
    clientid: Clientid4,
    f: u64,
    k: u128,
)
    requires
        after.has_cleaned_up(&before, clientid),
    ensures
        after.delegations.delegations@.contains_key(f) ==> after.delegations.delegations@[f].clientid
            != clientid,
        after.opens.states@.contains_key(k) ==> after.opens.states@[k].clientid != clientid,
        after.locks.lock_states@.contains_key(k) ==> after.locks.lock_states@[k].owner.clientid
            != clientid,
        after.sessions.sessions@.contains_key(k) ==> after.sessions.sessions@[k].clientid
            != clientid,
        !after.clients.clients@.contains_key(clientid),
{
}

} // verus!
