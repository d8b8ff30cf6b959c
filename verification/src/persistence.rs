//! Keeping what clients hold over a restart: what is written where, and when.

use crate::bytes::{bytes_eq, bytes_vec};
use crate::client::{ClientManager, ClientState};
use crate::error::Nfs4Result;
use crate::lease::passed;
use crate::lock::{LockEntry, LockManager, LockState};
use crate::open::{OpenManager, OpenState};
use crate::table::{push_one_more, take_one_more};
use crate::text::{decimal_text, push_decimal, text_bytes};
use crate::time::{unix_time, Duration, NANOS_PER_SEC};
use crate::types::{FileStatus, FileType};
use vstd::prelude::*;
use vstd::string::StringExecFns;

verus! {

/// How often all is written, in milliseconds.
pub const DEFAULT_SAVE_INTERVAL_MS: u64 = 30000;

/// How long clients may take back what they had, in seconds.
pub const SAVED_GRACE_PERIOD_SECS: u64 = 90;

// ---------------------------------------------------------------------------
// What is written
// ---------------------------------------------------------------------------

/// The whole seconds in a span of nanoseconds, as far as they can be counted.
pub open spec fn whole_secs(nanos: int) -> int {
    let secs = nanos / NANOS_PER_SEC as int;
    if secs > u64::MAX {
        u64::MAX as int
    } else {
        secs
    }
}

/// A client.
#[derive(Debug)]
pub struct PersistedClient {
    pub clientid: u64,
    pub client_owner: Vec<u8>,
    pub verifier: [u8; 8],
    pub confirmed: bool,
    /// When the client's lease ends, in seconds since the Unix epoch.
    pub lease_expiry: u64,
}

impl PersistedClient {
    /// Whether this is what is written of a client.
    pub open spec fn is_of(&self, c: ClientState, now: Duration, unix_secs: u64) -> bool {
        &&& self.client_owner@ == c.owner.co_ownerid@
        &&& self.verifier == c.owner.co_verifier
        &&& self.confirmed == c.confirmed
        &&& self.lease_expiry == lease_end(c, now, unix_secs)
    }
}

/// When the lease of a client ends, in seconds since the Unix epoch, where `now` on the server's
/// clock is `unix_secs` there: it lasts its time from when the client was last heard from.
pub open spec fn lease_end(c: ClientState, now: Duration, unix_secs: u64) -> u64 {
    let heard = unix_secs - whole_secs(passed(c.last_renew, now));
    let end = if heard < 0 {
        c.lease_time.secs() as int
    } else {
        heard + c.lease_time.secs()
    };
    if end > u64::MAX {
        u64::MAX
    } else {
        end as u64
    }
}

/// When the lease of a client ends.
fn end_of_lease(c: &ClientState, now: Duration, unix_secs: u64) -> (r: u64)
    ensures
        r == lease_end(*c, now, unix_secs),
{
    let elapsed: u64 = now.saturating_sub(c.last_renew).as_secs();
    unix_secs.saturating_sub(elapsed).saturating_add(c.lease_time.as_secs())
}

/// An open file.
#[derive(Debug)]
pub struct PersistedOpen {
    pub stateid: [u8; 12],
    pub clientid: u64,
    pub fileid: u64,
    pub path: String,
    pub share_access: u32,
    pub share_deny: u32,
}

impl PersistedOpen {
    /// Whether this is what is written of an open file.
    pub open spec fn is_of(&self, s: OpenState) -> bool {
        &&& self.stateid == s.stateid.other
        &&& self.clientid == s.clientid
        &&& self.fileid == s.fileid
        &&& self.path@ == s.path@
        &&& self.share_access == s.share_access
        &&& self.share_deny == s.share_deny
    }
}

/// A locked range.
#[derive(Debug)]
pub struct PersistedLock {
    pub stateid: [u8; 12],
    pub clientid: u64,
    pub fileid: u64,
    pub lock_type: u32,
    pub offset: u64,
    pub length: u64,
    pub owner: Vec<u8>,
}

impl PersistedLock {
    /// Whether this is what is written of a range of a state.
    pub open spec fn is_of(&self, s: LockState, e: LockEntry) -> bool {
        &&& self.stateid == s.stateid.other
        &&& self.clientid == s.owner.clientid
        &&& self.fileid == e.fileid
        &&& self.lock_type == e.lock_type.code_of()
        &&& self.offset == e.offset
        &&& self.length == e.length
        &&& self.owner@ == s.owner.owner@
    }
}

/// What is written of the server itself.
#[derive(Clone, Copy, Debug)]
pub struct RecoveryMetadata {
    pub server_instance_id: u64,
    /// In seconds since the Unix epoch.
    pub last_shutdown_time: u64,
    pub grace_period_secs: u64,
    /// Counts how often all was written.
    pub recovery_epoch: u64,
}

/// Something that is written, and where.
#[derive(Debug)]
pub struct Saved<T> {
    pub path: String,
    pub record: T,
}

/// All that is written at a time.
#[derive(Debug)]
pub struct Snapshot {
    pub meta: Saved<RecoveryMetadata>,
    pub clients: Vec<Saved<PersistedClient>>,
    pub opens: Vec<Saved<PersistedOpen>>,
    pub locks: Vec<Saved<PersistedLock>>,
}

// ---------------------------------------------------------------------------
// Names
// ---------------------------------------------------------------------------

/// A hexadecimal digit.
pub open spec fn hex_digit(d: u8) -> char {
    if d < 10 {
        (48 + d) as char
    } else {
        (87 + d) as char
    }
}

/// Bytes as hexadecimal digits, two for each, in lower case.
pub open spec fn hex_text(b: Seq<u8>) -> Seq<char> {
    Seq::new(
        2 * b.len(),
        |i: int|
            if i % 2 == 0 {
                hex_digit(b[i / 2] / 16)
            } else {
                hex_digit(b[i / 2] % 16)
            },
    )
}

/// `hex::encode`: two digits for each byte, the higher half first, in lower case.
#[verifier::external_body]
fn hex_of(bytes: &[u8]) -> (r: String)
    ensures
        r@ == hex_text(bytes@),
{
    hex::encode(bytes)
}

/// The path of a file in a directory.
pub open spec fn file_in(dir: Seq<char>, name: Seq<char>) -> Seq<char> {
    dir + "/"@ + name
}

/// The path of a file in a directory.
pub fn file_path(dir: &str, name: &str) -> (r: String)
    ensures
        r@ == file_in(dir@, name@),
{
    let mut s = String::from_str(dir);
    s.append("/");
    s.append(name);
    s
}

/// The path of the file of a client.
pub open spec fn client_file(dir: Seq<char>, clientid: u64) -> Seq<char> {
    dir + "/"@ + decimal_text(clientid as nat) + ".json"@
}

/// The path of the file of an open file.
pub open spec fn open_file(dir: Seq<char>, stateid: Seq<u8>) -> Seq<char> {
    dir + "/"@ + hex_text(stateid) + ".json"@
}

/// The path of the file of a locked range.
pub open spec fn lock_file(dir: Seq<char>, stateid: Seq<u8>, index: nat) -> Seq<char> {
    dir + "/"@ + hex_text(stateid) + "_"@ + decimal_text(index) + ".json"@
}

/// Whether a name is that of a file that was written here.
pub open spec fn is_record_name(name: Seq<u8>) -> bool {
    name.len() >= 5 && name.skip(name.len() - 5) == seq![46u8, 106u8, 115u8, 111u8, 110u8]
}

/// Whether a name is that of a file that was written here: it ends with ".json".
pub fn is_state_file(name: &str) -> (r: bool)
    ensures
        r == is_record_name(text_bytes(name@)),
{
    let b = name.as_bytes();
    if b.len() < 5 {
        return false;
    }
    let end = vstd::slice::slice_subrange(b, b.len() - 5, b.len());
    assert(end@ =~= b@.skip(b@.len() - 5));
    let json: [u8; 5] = [46, 106, 115, 111, 110];
    assert(json@ =~= seq![46u8, 106u8, 115u8, 111u8, 110u8]);
    bytes_eq(end, vstd::array::array_as_slice(&json))
}

/// Whether an entry of a directory is a file that was written here.
pub open spec fn is_record(entry: FileStatus) -> bool {
    entry.file_type == FileType::File && is_record_name(text_bytes(entry.name@))
}

/// The paths of the files in a directory that were written here.
pub open spec fn record_paths(dir: Seq<char>, entries: Seq<FileStatus>) -> Seq<Seq<char>>
    decreases entries.len(),
{
    if entries.len() == 0 {
        Seq::empty()
    } else if is_record(entries.last()) {
        record_paths(dir, entries.drop_last()).push(file_in(dir, entries.last().name@))
    } else {
        record_paths(dir, entries.drop_last())
    }
}

/// The paths of all files in a directory.
pub open spec fn file_paths(dir: Seq<char>, entries: Seq<FileStatus>) -> Seq<Seq<char>>
    decreases entries.len(),
{
    if entries.len() == 0 {
        Seq::empty()
    } else if entries.last().file_type == FileType::File {
        file_paths(dir, entries.drop_last()).push(file_in(dir, entries.last().name@))
    } else {
        file_paths(dir, entries.drop_last())
    }
}

/// Texts, as what they hold.
pub open spec fn texts(s: Seq<String>) -> Seq<Seq<char>> {
    s.map_values(|t: String| t@)
}

/// The paths of the files in a directory that were written here.
pub fn state_files(dir: &str, entries: &Vec<FileStatus>) -> (r: Vec<String>)
    ensures
        texts(r@) == record_paths(dir@, entries@),
{
    let mut out: Vec<String> = Vec::new();
    let mut i: usize = 0;
    assert(entries@.take(0) =~= Seq::empty());
    assert(texts(out@) =~= record_paths(dir@, entries@.take(0)));
    while i < entries.len()
        invariant
            i <= entries@.len(),
            texts(out@) == record_paths(dir@, entries@.take(i as int)),
        decreases entries@.len() - i,
    {
        let ghost o = out@;
        assert(entries@.take(i + 1).drop_last() =~= entries@.take(i as int));
        if entries[i].file_type == FileType::File && is_state_file(entries[i].name.as_str()) {
            let path = file_path(dir, entries[i].name.as_str());
            out.push(path);
            assert(texts(out@) =~= texts(o).push(path@));
        }
        i += 1;
    }
    assert(entries@.take(i as int) =~= entries@);
    out
}

fn put_files(out: &mut Vec<String>, dir: &str, entries: &Vec<FileStatus>)
    ensures
        texts(final(out)@) == texts(old(out)@) + file_paths(dir@, entries@),
{
    let mut i: usize = 0;
    assert(entries@.take(0) =~= Seq::empty());
    assert(texts(out@) =~= texts(out@) + file_paths(dir@, entries@.take(0)));
    while i < entries.len()
        invariant
            i <= entries@.len(),
            texts(out@) == texts(old(out)@) + file_paths(dir@, entries@.take(i as int)),
        decreases entries@.len() - i,
    {
        let ghost o = out@;
        assert(entries@.take(i + 1).drop_last() =~= entries@.take(i as int));
        if entries[i].file_type == FileType::File {
            let path = file_path(dir, entries[i].name.as_str());
            out.push(path);
            assert(texts(out@) =~= texts(o).push(path@));
        }
        i += 1;
    }
    assert(entries@.take(i as int) =~= entries@);
}

// ---------------------------------------------------------------------------
// The manager
// ---------------------------------------------------------------------------

/// Whether and how often all is written, and by whom.
#[derive(Debug)]
pub struct PersistenceConfig {
    pub enabled: bool,
    pub save_interval_ms: u64,
    /// What tells servers apart that share a storage.
    pub instance_id: Option<String>,
}

impl Default for PersistenceConfig {
    fn default() -> (r: Self)
        ensures
            r.enabled,
            r.save_interval_ms == DEFAULT_SAVE_INTERVAL_MS,
            r.instance_id is None,
    {
        PersistenceConfig {
            enabled: true,
            save_interval_ms: DEFAULT_SAVE_INTERVAL_MS,
            instance_id: None,
        }
    }
}

/// What is known of the machine that the server runs on.
#[derive(Debug)]
pub struct Machine {
    pub hostname: Option<String>,
    /// Whether several servers run on it.
    pub multi_instance: bool,
    pub process_id: u32,
}

/// What a server goes by: what it was told, the name of its machine, or where that is not known,
/// its process among several and a fixed name alone.
pub open spec fn instance_of(given: Option<String>, machine: Machine) -> Seq<char> {
    if given is Some {
        given->Some_0@
    } else if machine.hostname is Some && machine.hostname->Some_0@.len() > 0 {
        machine.hostname->Some_0@
    } else if machine.multi_instance {
        "node"@ + decimal_text(machine.process_id as nat)
    } else {
        "default"@
    }
}

fn instance_name(given: &Option<String>, machine: &Machine) -> (r: String)
    ensures
        r@ == instance_of(*given, *machine),
{
    if let Some(id) = given {
        return id.clone();
    }
    if let Some(host) = &machine.hostname {
        if host.as_str().unicode_len() > 0 {
            return host.clone();
        }
    }
    if machine.multi_instance {
        let mut s = String::from_str("node");
        push_decimal(&mut s, machine.process_id as u64);
        s
    } else {
        String::from_str("default")
    }
}

/// Where all is written.
#[derive(Debug)]
pub struct StatePersistenceManager {
    pub config: PersistenceConfig,
    pub recovery_epoch: u64,
    pub instance_id: String,
    pub state_dir: String,
    pub clients_dir: String,
    pub opens_dir: String,
    pub locks_dir: String,
    pub recovery_meta: String,
}

impl StatePersistenceManager {
    /// Everything lies in the directory of the server.
    pub open spec fn wf(&self) -> bool {
        &&& self.state_dir@ == file_in("/.nfs4_state"@, self.instance_id@)
        &&& self.clients_dir@ == file_in(self.state_dir@, "clients"@)
        &&& self.opens_dir@ == file_in(self.state_dir@, "opens"@)
        &&& self.locks_dir@ == file_in(self.state_dir@, "locks"@)
        &&& self.recovery_meta@ == file_in(self.state_dir@, "recovery.meta"@)
    }

    /// Nothing was written yet.
    pub fn new(config: PersistenceConfig, machine: &Machine) -> (r: Self)
        ensures
            r.wf(),
            r.config == config,
            r.recovery_epoch == 1,
            r.instance_id@ == instance_of(config.instance_id, *machine),
    {
        let instance_id = instance_name(&config.instance_id, machine);
        let state_dir = file_path("/.nfs4_state", instance_id.as_str());
        let clients_dir = file_path(state_dir.as_str(), "clients");
        let opens_dir = file_path(state_dir.as_str(), "opens");
        let locks_dir = file_path(state_dir.as_str(), "locks");
        let recovery_meta = file_path(state_dir.as_str(), "recovery.meta");
        StatePersistenceManager {
            config,
            recovery_epoch: 1,
            instance_id,
            state_dir,
            clients_dir,
            opens_dir,
            locks_dir,
            recovery_meta,
        }
    }

    /// Nothing was written yet, and nothing was told.
    pub fn with_default_config(machine: &Machine) -> (r: Self)
        ensures
            r.wf(),
            r.config.enabled,
            r.config.save_interval_ms == DEFAULT_SAVE_INTERVAL_MS,
            r.recovery_epoch == 1,
            r.instance_id@ == instance_of(None, *machine),
    {
        Self::new(PersistenceConfig::default(), machine)
    }

    /// What the server goes by.
    pub fn instance_id(&self) -> (r: &str)
        ensures
            r@ == self.instance_id@,
    {
        self.instance_id.as_str()
    }

    /// Whether anything is written.
    pub fn is_enabled(&self) -> (r: bool)
        ensures
            r == self.config.enabled,
    {
        self.config.enabled
    }

    /// How often all is written.
    pub fn save_interval_ms(&self) -> (r: u64)
        ensures
            r == self.config.save_interval_ms,
    {
        self.config.save_interval_ms
    }

    /// How often all was written.
    pub fn current_epoch(&self) -> (r: u64)
        ensures
            r == self.recovery_epoch,
    {
        self.recovery_epoch
    }

    /// The directories that have to be there before anything is written, from the outermost in.
    pub fn initialize(&self) -> (r: Vec<String>)
        ensures
            texts(r@) == if self.config.enabled {
                seq![self.state_dir@, self.clients_dir@, self.opens_dir@, self.locks_dir@]
            } else {
                Seq::empty()
            },
    {
        let mut out: Vec<String> = Vec::new();
        if self.config.enabled {
            out.push(self.state_dir.clone());
            out.push(self.clients_dir.clone());
            out.push(self.opens_dir.clone());
            out.push(self.locks_dir.clone());
            assert(texts(out@) =~= seq![
                self.state_dir@,
                self.clients_dir@,
                self.opens_dir@,
                self.locks_dir@,
            ]);
        } else {
            assert(texts(out@) =~= Seq::empty());
        }
        out
    }

    /// A client is written with all else, not by itself.
    pub fn save_client(&self, _client: &PersistedClient) -> (r: Nfs4Result<()>)
        ensures
            r is Ok,
    {
        Ok(())
    }

    /// An open file is written with all else, not by itself.
    pub fn save_open(&self, _open: &PersistedOpen) -> (r: Nfs4Result<()>)
        ensures
            r is Ok,
    {
        Ok(())
    }

    /// A lock is written with all else, not by itself.
    pub fn save_lock(&self, _lock: &PersistedLock) -> (r: Nfs4Result<()>)
        ensures
            r is Ok,
    {
        Ok(())
    }

    /// What is written of the server is written with all else, not by itself.
    pub fn save_recovery_metadata(&self, _meta: &RecoveryMetadata) -> (r: Nfs4Result<()>)
        ensures
            r is Ok,
    {
        Ok(())
    }

    /// The files of clients to be read after a restart, among what is in their directory.
    pub fn load_clients(&self, entries: &Vec<FileStatus>) -> (r: Vec<String>)
        ensures
            texts(r@) == if self.config.enabled {
                record_paths(self.clients_dir@, entries@)
            } else {
                Seq::empty()
            },
    {
        if !self.config.enabled {
            let none: Vec<String> = Vec::new();
            assert(texts(none@) =~= Seq::empty());
            return none;
        }
        state_files(self.clients_dir.as_str(), entries)
    }

    /// The files of open files to be read after a restart, among what is in their directory.
    pub fn load_opens(&self, entries: &Vec<FileStatus>) -> (r: Vec<String>)
        ensures
            texts(r@) == if self.config.enabled {
                record_paths(self.opens_dir@, entries@)
            } else {
                Seq::empty()
            },
    {
        if !self.config.enabled {
            let none: Vec<String> = Vec::new();
            assert(texts(none@) =~= Seq::empty());
            return none;
        }
        state_files(self.opens_dir.as_str(), entries)
    }

    /// The files of locks to be read after a restart, among what is in their directory.
    pub fn load_locks(&self, entries: &Vec<FileStatus>) -> (r: Vec<String>)
        ensures
            texts(r@) == if self.config.enabled {
                record_paths(self.locks_dir@, entries@)
            } else {
                Seq::empty()
            },
    {
        if !self.config.enabled {
            let none: Vec<String> = Vec::new();
            assert(texts(none@) =~= Seq::empty());
            return none;
        }
        state_files(self.locks_dir.as_str(), entries)
    }

    /// The files to be deleted once clients have taken back what they had: all that is in the
    /// three directories, and what was written of the server itself.
    pub fn cleanup_unclaimed_state(
        &self,
        clients: &Vec<FileStatus>,
        opens: &Vec<FileStatus>,
        locks: &Vec<FileStatus>,
    ) -> (r: Vec<String>)
        ensures
            texts(r@) == if self.config.enabled {
                (file_paths(self.clients_dir@, clients@) + file_paths(self.opens_dir@, opens@)
                    + file_paths(self.locks_dir@, locks@)).push(self.recovery_meta@)
            } else {
                Seq::empty()
            },
    {
        let mut out: Vec<String> = Vec::new();
        assert(texts(out@) =~= Seq::empty());
        if self.config.enabled {
            put_files(&mut out, self.clients_dir.as_str(), clients);
            put_files(&mut out, self.opens_dir.as_str(), opens);
            put_files(&mut out, self.locks_dir.as_str(), locks);
            let ghost o = out@;
            let meta = self.recovery_meta.clone();
            out.push(meta);
            assert(texts(out@) =~= texts(o).push(meta@));
        }
        out
    }

    /// Goes on counting where it was left off before the restart.
    pub fn load_recovery_metadata(&mut self, meta: &RecoveryMetadata)
        requires
            meta.recovery_epoch < u64::MAX,
        ensures
            *final(self) == (StatePersistenceManager {
                recovery_epoch: (meta.recovery_epoch + 1) as u64,
                ..*old(self)
            }),
    {
        self.recovery_epoch = meta.recovery_epoch + 1;
    }

    /// Whether this is what is written of the clients: each once, under its number.
    pub open spec fn saves_clients(
        &self,
        clients: &ClientManager,
        now: Duration,
        unix_secs: u64,
        saved: Seq<Saved<PersistedClient>>,
    ) -> bool {
        &&& saved.len() == clients.clients@.dom().len()
        &&& forall|i: int|
            0 <= i < saved.len() ==> {
                let id = (#[trigger] saved[i]).record.clientid;
                &&& clients.clients@.contains_key(id)
                &&& saved[i].record.is_of(clients.clients@[id], now, unix_secs)
                &&& saved[i].path@ == client_file(self.clients_dir@, id)
            }
        &&& forall|i: int, j: int|
            0 <= i < j < saved.len() ==> (#[trigger] saved[i]).record.clientid != (
            #[trigger] saved[j]).record.clientid
    }

    /// Whether an open file is written under its id.
    pub open spec fn saves_open(&self, opens: &OpenManager, saved: Saved<PersistedOpen>) -> bool {
        &&& exists|s: OpenState| #[trigger] opens.holds_state(s) && saved.record.is_of(s)
        &&& saved.path@ == open_file(self.opens_dir@, saved.record.stateid@)
    }

    /// Whether this is what is written of the open files: each under its id.
    pub open spec fn saves_opens(
        &self,
        opens: &OpenManager,
        saved: Seq<Saved<PersistedOpen>>,
    ) -> bool {
        &&& saved.len() == opens.states@.dom().len()
        &&& forall|i: int| 0 <= i < saved.len() ==> self.saves_open(opens, #[trigger] saved[i])
        &&& forall|k: u128| #[trigger]
            opens.states@.contains_key(k) ==> exists|i: int|
                0 <= i < saved.len() && (#[trigger] saved[i]).record.is_of(opens.states@[k])
    }

    /// Whether the locked range of a state is written under the state's id and the number of those
    /// before it.
    pub open spec fn saves_lock(
        &self,
        locks: &LockManager,
        saved: Saved<PersistedLock>,
        range: (u128, int),
        i: nat,
    ) -> bool {
        let state = locks.lock_states@[range.0];
        &&& saved.record.is_of(state, state.lock_entries@[range.1])
        &&& saved.path@ == lock_file(self.locks_dir@, saved.record.stateid@, i)
    }

    /// Whether records are written of these ranges, one of each.
    pub open spec fn saves_ranges(
        &self,
        locks: &LockManager,
        saved: Seq<Saved<PersistedLock>>,
        ranges: Seq<(u128, int)>,
    ) -> bool {
        &&& saved.len() == ranges.len()
        &&& forall|i: int|
            0 <= i < saved.len() ==> self.saves_lock(locks, #[trigger] saved[i], ranges[i], i as nat)
    }

    /// Whether this is what is written of the locks: each range of each state once.
    pub open spec fn saves_locks(
        &self,
        locks: &LockManager,
        saved: Seq<Saved<PersistedLock>>,
    ) -> bool {
        exists|ranges: Seq<(u128, int)>| #[trigger]
            all_ranges(locks, ranges) && self.saves_ranges(locks, saved, ranges)
    }

    /// Whether this is all that is written at a time.
    pub open spec fn is_snapshot(
        &self,
        before: &StatePersistenceManager,
        clients: &ClientManager,
        opens: &OpenManager,
        locks: &LockManager,
        now: Duration,
        unix_secs: u64,
        process_id: u32,
        snapshot: Snapshot,
    ) -> bool {
        &&& *self == StatePersistenceManager {
            recovery_epoch: before.recovery_epoch.wrapping_add(1),
            ..*before
        }
        &&& snapshot.meta.path@ == before.recovery_meta@
        &&& snapshot.meta.record == RecoveryMetadata {
            server_instance_id: process_id as u64,
            last_shutdown_time: unix_secs,
            grace_period_secs: SAVED_GRACE_PERIOD_SECS,
            recovery_epoch: before.recovery_epoch,
        }
        &&& before.saves_clients(clients, now, unix_secs, snapshot.clients@)
        &&& before.saves_opens(opens, snapshot.opens@)
        &&& before.saves_locks(locks, snapshot.locks@)
    }

    fn clients_to_save(&self, clients: &ClientManager, now: Duration, unix_secs: u64) -> (r: Vec<
        Saved<PersistedClient>,
    >)
        ensures
            self.saves_clients(clients, now, unix_secs, r@),
    {
        let list = clients.export_clients();
        let mut out: Vec<Saved<PersistedClient>> = Vec::new();
        let mut i: usize = 0;
        while i < list.len()
            invariant
                i <= list@.len(),
                out@.len() == i,
                list@.len() == clients.clients@.dom().len(),
                forall|j: int|
                    0 <= j < list@.len() ==> clients.clients@.contains_key(#[trigger] list@[j].0)
                        && *list@[j].1 == clients.clients@[list@[j].0],
                forall|j: int, k: int|
                    0 <= j < k < list@.len() ==> (#[trigger] list@[j]).0 != (
                    #[trigger] list@[k]).0,
                forall|j: int|
                    0 <= j < i ==> {
                        let id = (#[trigger] out@[j]).record.clientid;
                        &&& id == list@[j].0
                        &&& out@[j].record.is_of(clients.clients@[id], now, unix_secs)
                        &&& out@[j].path@ == client_file(self.clients_dir@, id)
                    },
            decreases list@.len() - i,
        {
            let (id, c) = list[i];
            let mut path = self.clients_dir.clone();
            path.append("/");
            push_decimal(&mut path, id);
            path.append(".json");
            let record = PersistedClient {
                clientid: id,
                client_owner: bytes_vec(c.owner.co_ownerid.as_slice()),
                verifier: c.owner.co_verifier,
                confirmed: c.confirmed,
                lease_expiry: end_of_lease(c, now, unix_secs),
            };
            assert(clients.clients@.contains_key(list@[i as int].0));
            out.push(Saved { path, record });
            i += 1;
        }
        out
    }

    fn opens_to_save(&self, opens: &OpenManager) -> (r: Vec<Saved<PersistedOpen>>)
        ensures
            self.saves_opens(opens, r@),
    {
        let list = opens.export_opens();
        let mut out: Vec<Saved<PersistedOpen>> = Vec::new();
        let mut i: usize = 0;
        while i < list.len()
            invariant
                i <= list@.len(),
                out@.len() == i,
                forall|j: int|
                    0 <= j < list@.len() ==> opens.holds_state(*(#[trigger] list@[j])),
                forall|j: int|
                    0 <= j < i ==> {
                        &&& (#[trigger] out@[j]).record.is_of(*list@[j])
                        &&& out@[j].path@ == open_file(
                            self.opens_dir@,
                            out@[j].record.stateid@,
                        )
                    },
            decreases list@.len() - i,
        {
            let s = list[i];
            let hex = hex_of(vstd::array::array_as_slice(&s.stateid.other));
            let mut path = self.opens_dir.clone();
            path.append("/");
            path.append(hex.as_str());
            path.append(".json");
            let record = PersistedOpen {
                stateid: s.stateid.other,
                clientid: s.clientid,
                fileid: s.fileid,
                path: s.path.clone(),
                share_access: s.share_access,
                share_deny: s.share_deny,
            };
            out.push(Saved { path, record });
            i += 1;
        }
        proof {
            assert forall|i: int| 0 <= i < out@.len() implies self.saves_open(
                opens,
                #[trigger] out@[i],
            ) by {
                assert(out@[i].record.is_of(*list@[i]));
                assert(opens.holds_state(*list@[i]));
            }
            assert forall|k: u128| #[trigger] opens.states@.contains_key(k) implies exists|i: int|
                0 <= i < out@.len() && (#[trigger] out@[i]).record.is_of(opens.states@[k]) by {
                let i = choose|i: int|
                    0 <= i < list@.len() && opens.states@[k] == *(#[trigger] list@[i]);
                assert(out@[i].record.is_of(opens.states@[k]));
            }
        }
        out
    }

    fn locks_to_save(&self, locks: &LockManager) -> (r: Vec<Saved<PersistedLock>>)
        ensures
            self.saves_locks(locks, r@),
    {
        let list = locks.export_locks();
        let ghost keys = choose|keys: Seq<u128>| #[trigger] locks.lists(keys, list@);
        let ghost mut ranges: Seq<(u128, int)> = Seq::empty();
        let mut out: Vec<Saved<PersistedLock>> = Vec::new();
        let mut i: usize = 0;
        while i < list.len()
            invariant
                i <= list@.len(),
                locks.lists(keys, list@),
                ranges.no_duplicates(),
                forall|k: u128, n: int| #[trigger]
                    ranges.contains((k, n)) <==> keys.take(i as int).contains(k) && 0 <= n
                        < locks.lock_states@[k].lock_entries@.len(),
                self.saves_ranges(locks, out@, ranges),
            decreases list@.len() - i,
        {
            let s = list[i];
            let ghost key = keys[i as int];
            proof {
                assert(keys.contains(key));
                take_one_more(keys, i as int);
                if keys.take(i as int).contains(key) {
                    let n = choose|n: int| 0 <= n < i && #[trigger] keys.take(i as int)[n] == key;
                    assert(keys[n] == key);
                }
            }
            let mut j: usize = 0;
            while j < s.lock_entries.len()
                invariant
                    j <= s.lock_entries@.len(),
                    i < keys.len(),
                    !keys.take(i as int).contains(key),
                    *s == locks.lock_states@[key],
                    ranges.no_duplicates(),
                    forall|k: u128, n: int| #[trigger]
                        ranges.contains((k, n)) <==> (keys.take(i as int).contains(k) && 0 <= n
                            < locks.lock_states@[k].lock_entries@.len()) || (k == key && 0 <= n < j),
                    self.saves_ranges(locks, out@, ranges),
                decreases s.lock_entries@.len() - j,
            {
                let e = &s.lock_entries[j];
                let hex = hex_of(vstd::array::array_as_slice(&s.stateid.other));
                let mut path = self.locks_dir.clone();
                path.append("/");
                path.append(hex.as_str());
                path.append("_");
                push_decimal(&mut path, out.len() as u64);
                path.append(".json");
                let record = PersistedLock {
                    stateid: s.stateid.other,
                    clientid: s.owner.clientid,
                    fileid: e.fileid,
                    lock_type: e.lock_type.code(),
                    offset: e.offset,
                    length: e.length,
                    owner: bytes_vec(s.owner.owner.as_slice()),
                };
                let ghost o = out@;
                let saved = Saved { path, record };
                assert(saved.record.is_of(*s, s.lock_entries@[j as int]));
                assert(self.saves_lock(locks, saved, (key, j as int), o.len()));
                out.push(saved);
                proof {
                    let before = ranges;
                    assert(!before.contains((key, j as int)));
                    push_one_more(before, (key, j as int));
                    ranges = before.push((key, j as int));
                    assert forall|x: int| 0 <= x < out@.len() implies self.saves_lock(
                        locks,
                        #[trigger] out@[x],
                        ranges[x],
                        x as nat,
                    ) by {
                        if x < o.len() {
                            assert(self.saves_lock(locks, o[x], before[x], x as nat));
                        }
                    }
                }
                j += 1;
            }
            i += 1;
        }
        proof {
            assert(keys.take(list@.len() as int) =~= keys);
            assert(all_ranges(locks, ranges));
        }
        out
    }

    /// All that is written now, where anything is.
    pub fn save_snapshot_at(
        &mut self,
        now: Duration,
        unix_secs: u64,
        process_id: u32,
        clients: &ClientManager,
        opens: &OpenManager,
        locks: &LockManager,
    ) -> (r: Option<Snapshot>)
        ensures
            final(self).has_saved(
                old(self),
                clients,
                opens,
                locks,
                now,
                unix_secs,
                process_id,
                r,
            ),
    {
        if !self.config.enabled {
            return None;
        }
        let ghost before = *self;
        let epoch: u64 = self.recovery_epoch;
        let clients = self.clients_to_save(clients, now, unix_secs);
        let opens = self.opens_to_save(opens);
        let locks = self.locks_to_save(locks);
        let meta = Saved {
            path: self.recovery_meta.clone(),
            record: RecoveryMetadata {
                server_instance_id: process_id as u64,
                last_shutdown_time: unix_secs,
                grace_period_secs: SAVED_GRACE_PERIOD_SECS,
                recovery_epoch: epoch,
            },
        };
        self.recovery_epoch = epoch.wrapping_add(1);
        Some(Snapshot { meta, clients, opens, locks })
    }

    /// Whether this is what is written at a time, where anything is.
    pub open spec fn has_saved(
        &self,
        before: &StatePersistenceManager,
        clients: &ClientManager,
        opens: &OpenManager,
        locks: &LockManager,
        now: Duration,
        unix_secs: u64,
        process_id: u32,
        r: Option<Snapshot>,
    ) -> bool {
        if before.config.enabled {
            &&& r is Some
            &&& self.is_snapshot(
                before,
                clients,
                opens,
                locks,
                now,
                unix_secs,
                process_id,
                r->Some_0,
            )
        } else {
            r is None && *self == *before
        }
    }

    /// All that is written now, where anything is.
    pub fn save_snapshot(
        &mut self,
        process_id: u32,
        clients: &ClientManager,
        opens: &OpenManager,
        locks: &LockManager,
    ) -> (r: Option<Snapshot>)
        ensures
            exists|now: Duration, unix_secs: u64| #[trigger]
                final(self).has_saved(
                    old(self),
                    clients,
                    opens,
                    locks,
                    now,
                    unix_secs,
                    process_id,
                    r,
                ),
    {
        let now = clients.clock.now();
        let unix_secs: u64 = unix_time().as_secs();
        self.save_snapshot_at(now, unix_secs, process_id, clients, opens, locks)
    }
}

/// Whether these are the locked ranges of all states, each once: the state's id, and the place of
/// the range in it.
pub open spec fn all_ranges(locks: &LockManager, ranges: Seq<(u128, int)>) -> bool {
    &&& ranges.no_duplicates()
    &&& forall|k: u128, n: int| #[trigger]
        ranges.contains((k, n)) <==> locks.lock_states@.contains_key(k) && 0 <= n
            < locks.lock_states@[k].lock_entries@.len()
}

} // verus!
