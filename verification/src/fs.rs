//! What the server knows of the files in the storage behind it: their numbers, handles and paths,
//! and which of them are open.

use crate::bytes::{get_le64, le64, le64_at, put_le64};
use crate::cache::{
    drop_data, drop_id, drop_path, drop_status, get_data, get_id, get_path, get_status, kept_data,
    kept_ids, kept_paths, kept_statuses, new_data, new_ids, new_paths, new_statuses, put_data,
    put_id, put_path, put_status, MAX_TTL_SECS,
};
use crate::error::{fails_with, failure, Nfs4Result, Nfs4Status};
use crate::text::{fnv1a, hash_of, is_root, root, root_path, text_bytes};
use crate::types::{FileStatus, Fileid4, Nfs4FileHandle};
use moka::sync::Cache;
use std::collections::HashMap;
use vstd::prelude::*;

verus! {

broadcast use vstd::std_specs::hash::group_hash_axioms;

/// The number of the root directory.
pub const ROOT_FILEID: Fileid4 = 1000;

// ---------------------------------------------------------------------------
// Numbers of files
// ---------------------------------------------------------------------------

/// The number of a file in a storage that does not number its files: it is made from the path, and
/// is never zero.
pub open spec fn path_fileid(path: Seq<char>) -> u64 {
    (fnv1a(text_bytes(path)) % 0x8000_0000_0000_0000 + 1) as u64
}

/// The number of the file that a status is of.
pub open spec fn status_fileid(status: FileStatus, path: Seq<char>) -> u64 {
    if status.id == 0 {
        path_fileid(path)
    } else {
        status.id as u64
    }
}

/// The number of a file in a storage that does not number its files.
pub fn generate_fileid_from_path(path: &str) -> (r: u64)
    ensures
        r == path_fileid(path@),
        1 <= r <= 0x8000_0000_0000_0000,
{
    hash_of(path.as_bytes()) % 0x8000_0000_0000_0000 + 1
}

/// The number of the file that a status is of.
pub fn get_fileid_from_status(status: &FileStatus, path: &str) -> (r: u64)
    ensures
        r == status_fileid(*status, path@),
{
    if status.id == 0 {
        generate_fileid_from_path(path)
    } else {
        #[verifier::truncate] (status.id as u64)
    }
}

// ---------------------------------------------------------------------------
// Paths of files
// ---------------------------------------------------------------------------

/// Which file has which path, both ways, as far as it is remembered.
pub struct PathCache {
    pub id_to_path: Cache<u64, String>,
    pub path_to_id: Cache<String, u64>,
    pub root_id: Fileid4,
}

impl PathCache {
    /// The paths that were noted for files.
    pub open spec fn paths(&self) -> Map<u64, Seq<char>> {
        kept_paths(self.id_to_path)
    }

    /// The files that were noted for paths.
    pub open spec fn ids(&self) -> Map<Seq<char>, u64> {
        kept_ids(self.path_to_id)
    }

    /// Nothing is remembered.
    pub fn new(max_size: u64, ttl_secs: u64, root_id: Fileid4) -> (r: Self)
        requires
            ttl_secs <= MAX_TTL_SECS,
        ensures
            r.paths() == Map::<u64, Seq<char>>::empty(),
            r.ids() == Map::<Seq<char>, u64>::empty(),
            r.root_id == root_id,
    {
        PathCache {
            id_to_path: new_paths(max_size, ttl_secs),
            path_to_id: new_ids(max_size, ttl_secs),
            root_id,
        }
    }

    /// The path that was noted for a file; that of the root is always known.
    pub open spec fn path_of(&self, id: Fileid4) -> Option<Seq<char>> {
        if id == self.root_id {
            Some(root_path())
        } else if self.paths().contains_key(id) {
            Some(self.paths()[id])
        } else {
            None
        }
    }

    /// The file that was noted for a path; the root is always known.
    pub open spec fn id_of(&self, path: Seq<char>) -> Option<u64> {
        if path == root_path() {
            Some(self.root_id)
        } else if self.ids().contains_key(path) {
            Some(self.ids()[path])
        } else {
            None
        }
    }

    /// The path of a file, if it is remembered.
    pub fn get_path(&self, id: Fileid4) -> (r: Option<String>)
        ensures
            r is Some ==> self.path_of(id) == Some(r->Some_0@),
            id == self.root_id ==> r is Some,
    {
        if id == self.root_id {
            return Some(root());
        }
        get_path(&self.id_to_path, &id)
    }

    /// The file with a path, if it is remembered.
    pub fn get_fileid(&self, path: &str) -> (r: Option<Fileid4>)
        ensures
            r is Some ==> self.id_of(path@) == r,
            path@ == root_path() ==> r is Some,
    {
        if is_root(path) {
            return Some(self.root_id);
        }
        get_id(&self.path_to_id, path)
    }

    /// Notes the path of a file. That of the root is not noted.
    pub fn insert(&mut self, id: Fileid4, path: String)
        ensures
            final(self).root_id == old(self).root_id,
            final(self).paths() == if id == old(self).root_id {
                old(self).paths()
            } else {
                old(self).paths().insert(id, path@)
            },
            final(self).ids() == if id == old(self).root_id {
                old(self).ids()
            } else {
                old(self).ids().insert(path@, id)
            },
    {
        if id != self.root_id {
            put_path(&mut self.id_to_path, id, path.clone());
            put_id(&mut self.path_to_id, path, id);
        }
    }

    /// Forgets a file, and its path if that is still remembered.
    pub fn remove(&mut self, id: Fileid4)
        ensures
            final(self).root_id == old(self).root_id,
            final(self).paths() == old(self).paths().remove(id),
            final(self).ids() == old(self).ids() || old(self).paths().contains_key(id)
                && final(self).ids() == old(self).ids().remove(old(self).paths()[id]),
    {
        let found = get_path(&self.id_to_path, &id);
        self.forget(id, found);
    }

    /// Forgets a file, and the path that was found for it.
    pub fn forget(&mut self, id: Fileid4, found: Option<String>)
        ensures
            final(self).root_id == old(self).root_id,
            final(self).paths() == old(self).paths().remove(id),
            final(self).ids() == match found {
                Some(path) => old(self).ids().remove(path@),
                None => old(self).ids(),
            },
    {
        if let Some(path) = found {
            drop_id(&mut self.path_to_id, path.as_str());
        }
        drop_path(&mut self.id_to_path, &id);
    }

    /// Forgets a path, and the file that has it if that is still remembered.
    pub fn remove_by_path(&mut self, path: &str)
        ensures
            final(self).root_id == old(self).root_id,
            final(self).ids() == old(self).ids().remove(path@),
            final(self).paths() == old(self).paths() || old(self).ids().contains_key(path@)
                && final(self).paths() == old(self).paths().remove(old(self).ids()[path@]),
    {
        let found = get_id(&self.path_to_id, path);
        self.forget_path(path, found);
    }

    /// Forgets a path, and the file that was found to have it.
    pub fn forget_path(&mut self, path: &str, found: Option<Fileid4>)
        ensures
            final(self).root_id == old(self).root_id,
            final(self).ids() == old(self).ids().remove(path@),
            final(self).paths() == match found {
                Some(id) => old(self).paths().remove(id),
                None => old(self).paths(),
            },
    {
        if let Some(id) = found {
            drop_path(&mut self.id_to_path, &id);
        }
        drop_id(&mut self.path_to_id, path);
    }

    /// What is noted after a file has got another path, and perhaps another number: the old path
    /// is forgotten, and what had the new path before may be.
    pub open spec fn has_renamed(
        &self,
        before: &PathCache,
        old_fileid: Fileid4,
        old_path: Seq<char>,
        new_path: Seq<char>,
        new_fileid: Fileid4,
    ) -> bool {
        let kept = if old_fileid != new_fileid {
            before.paths().remove(old_fileid)
        } else {
            before.paths()
        };
        &&& self.root_id == before.root_id
        &&& self.ids() == before.ids().remove(old_path).insert(new_path, new_fileid)
        &&& self.paths() == kept.insert(new_fileid, new_path) || new_path != old_path
            && before.ids().contains_key(new_path) && self.paths() == kept.remove(
            before.ids()[new_path],
        ).insert(new_fileid, new_path)
    }

    /// A file has got another path, and perhaps another number.
    pub fn rename(
        &mut self,
        old_fileid: Fileid4,
        old_path: &str,
        new_path: &str,
        new_fileid: Fileid4,
    )
        ensures
            final(self).has_renamed(old(self), old_fileid, old_path@, new_path@, new_fileid),
    {
        drop_id(&mut self.path_to_id, old_path);
        let found = get_id(&self.path_to_id, new_path);
        self.moved(old_fileid, new_path, new_fileid, found);
        proof {
            let ids = old(self).ids();
            assert(self.ids() =~= ids.remove(old_path@).insert(new_path@, new_fileid));
        }
    }

    /// The old path of a file is forgotten. Notes its new path, with what was found to have that
    /// before.
    pub fn moved(
        &mut self,
        old_fileid: Fileid4,
        new_path: &str,
        new_fileid: Fileid4,
        found: Option<Fileid4>,
    )
        ensures
            final(self).root_id == old(self).root_id,
            final(self).ids() == old(self).ids().insert(new_path@, new_fileid),
            ({
                let kept = if old_fileid != new_fileid {
                    old(self).paths().remove(old_fileid)
                } else {
                    old(self).paths()
                };
                final(self).paths() == match found {
                    Some(target) => kept.remove(target).insert(new_fileid, new_path@),
                    None => kept.insert(new_fileid, new_path@),
                }
            }),
    {
        let ghost paths = self.paths();
        if let Some(target) = found {
            drop_path(&mut self.id_to_path, &target);
            drop_id(&mut self.path_to_id, new_path);
            assert(paths.remove(target).remove(old_fileid) =~= paths.remove(old_fileid).remove(
                target,
            ));
        }
        if old_fileid != new_fileid {
            drop_path(&mut self.id_to_path, &old_fileid);
        }
        let path = new_path.to_owned();
        put_path(&mut self.id_to_path, new_fileid, path.clone());
        put_id(&mut self.path_to_id, path, new_fileid);
        assert(self.ids() =~= old(self).ids().insert(new_path@, new_fileid));
    }
}

/// After a file has got another path, the new path leads to it and the old one leads nowhere.
pub proof fn law_renamed_file_is_found_under_its_new_path(
    before: PathCache,
    after: PathCache,
    old_fileid: u64,
    old_path: Seq<char>,
    new_path: Seq<char>,
    new_fileid: u64,
)
    requires
        after.has_renamed(&before, old_fileid, old_path, new_path, new_fileid),
        old_path != root_path(),
        new_path != root_path(),
        new_fileid != after.root_id,
    ensures
        after.id_of(new_path) == Some(new_fileid),
        after.path_of(new_fileid) == Some(new_path),
        old_path != new_path ==> after.id_of(old_path) is None,
        old_fileid != new_fileid && old_fileid != after.root_id ==> after.path_of(
            old_fileid,
        ) is None,
{
}

// ---------------------------------------------------------------------------
// Open files
// ---------------------------------------------------------------------------

/// A file that is open. All opens of a file share it. What is used to read and to write the file is
/// known by `handle`.
pub struct OpenFile {
    pub fileid: Fileid4,
    pub path: String,
    pub handle: u64,
    /// Whether the file can be read.
    pub readable: bool,
    /// Whether the file can be written.
    pub writable: bool,
    /// What the opens together allow.
    pub access: u32,
    /// How many opens there are.
    pub ref_count: u32,
}

/// The bit that asks for reading.
pub const ACCESS_READ: u32 = 1;

/// The bit that asks for writing.
pub const ACCESS_WRITE: u32 = 2;

/// What has to be opened when an open file is to allow more.
#[derive(Clone, Copy, Debug, PartialEq, Eq, Structural)]
pub struct Upgrade {
    pub combined: u32,
    pub reader: bool,
    pub writer: bool,
}

impl OpenFile {
    /// Another open of the file.
    pub fn add_ref(&mut self) -> (r: u32)
        requires
            old(self).ref_count < u32::MAX,
        ensures
            r == old(self).ref_count + 1,
            *final(self) == (OpenFile { ref_count: r, ..*old(self) }),
    {
        self.ref_count = self.ref_count + 1;
        self.ref_count
    }

    /// One open less. Says whether it was the last.
    pub fn release_ref(&mut self) -> (r: bool)
        ensures
            r == (old(self).ref_count == 1),
            *final(self) == (OpenFile {
                ref_count: old(self).ref_count.wrapping_sub(1),
                ..*old(self)
            }),
    {
        let last = self.ref_count == 1;
        self.ref_count = self.ref_count.wrapping_sub(1);
        last
    }

    /// What has to be opened for `new_access`, on top of what the file allows already.
    pub open spec fn missing_for(access: u32, new_access: u32) -> Upgrade {
        let combined = access | new_access;
        Upgrade {
            combined,
            reader: combined & ACCESS_READ != 0 && access & ACCESS_READ == 0,
            writer: combined & ACCESS_WRITE != 0 && access & ACCESS_WRITE == 0,
        }
    }

    /// What has to be opened for `new_access`, on top of what the file allows already.
    pub fn missing(&self, new_access: u32) -> (r: Upgrade)
        ensures
            r == Self::missing_for(self.access, new_access),
    {
        let combined: u32 = self.access | new_access;
        Upgrade {
            combined,
            reader: combined & ACCESS_READ != 0 && self.access & ACCESS_READ == 0,
            writer: combined & ACCESS_WRITE != 0 && self.access & ACCESS_WRITE == 0,
        }
    }
}

/// How much of a file of length `len` is to be read, if anything is.
pub open spec fn to_read(len: i64, offset: u64, count: u32) -> Option<u32> {
    let left = len as u64 - offset;
    let n = if count <= left {
        count as int
    } else {
        left
    };
    if n <= 0 {
        None
    } else {
        Some(n as u32)
    }
}

/// How much of a file of length `len` is to be read, if anything is.
pub fn plan_read(len: i64, offset: u64, count: u32) -> (r: Option<u32>)
    ensures
        r == to_read(len, offset, count),
{
    let length: u64 = #[verifier::truncate] (len as u64);
    if offset >= length || count == 0 {
        return None;
    }
    let left: u64 = length - offset;
    if count as u64 <= left {
        Some(count)
    } else {
        Some(left as u32)
    }
}

/// Whether a reading that was asked for `count` bytes and has given `got` has come to the end.
pub open spec fn at_end(len: i64, offset: u64, count: u32, got: nat) -> bool {
    got < count || offset + got >= len as u64
}

/// Whether a reading has come to the end.
pub fn reached_end(len: i64, offset: u64, count: u32, got: usize) -> (r: bool)
    ensures
        r == at_end(len, offset, count, got as nat),
{
    let length: u64 = #[verifier::truncate] (len as u64);
    (got as u64) < count as u64 || offset as u128 + got as u128 >= length as u128
}

/// Where nothing is read because the offset lies at the end or behind it, the end is reached.
pub proof fn law_reading_behind_the_end_gives_nothing(len: i64, offset: u64, count: u32)
    requires
        0 <= len,
        offset >= len,
    ensures
        to_read(len, offset, count) is None,
        at_end(len, offset, count, 0),
{
}

/// Inside a file as much is read as is asked for and as is there, which is something, and the end
/// is reported exactly where the reading has come to it.
pub proof fn law_reading_inside_a_file_gives_what_is_there(len: i64, offset: u64, count: u32)
    requires
        offset < len,
        0 < count,
    ensures
        to_read(len, offset, count) is Some,
        ({
            let n = to_read(len, offset, count)->Some_0;
            &&& n > 0
            &&& n == if count <= len - offset {
                count as int
            } else {
                len - offset
            }
            &&& at_end(len, offset, count, n as nat) <==> offset + n == len
        }),
{
}

// ---------------------------------------------------------------------------
// The file system
// ---------------------------------------------------------------------------

/// How the file system is set up.
#[derive(Clone, Copy, Debug)]
pub struct FsConfig {
    /// Whether nothing may be changed.
    pub read_only: bool,
    /// What handles carry, so that those of another cluster are told apart.
    pub cluster_generation: u64,
    pub path_cache_size: u64,
    pub path_cache_ttl_secs: u64,
    /// How many statuses are remembered; none where it is negative.
    pub file_status_cache_size: i64,
    pub file_status_cache_ttl_secs: u64,
    /// How many small files are remembered.
    pub file_data_cache_size: u64,
    pub file_data_cache_ttl_secs: u64,
    /// The longest file whose contents are remembered.
    pub max_cacheable_file_size: u64,
    pub max_read_size: u32,
    pub max_write_size: u32,
}

impl FsConfig {
    /// Whether the times for which things are remembered can be kept.
    pub open spec fn wf(&self) -> bool {
        &&& self.path_cache_ttl_secs <= MAX_TTL_SECS
        &&& self.file_status_cache_ttl_secs <= MAX_TTL_SECS
        &&& self.file_data_cache_ttl_secs <= MAX_TTL_SECS
    }
}

/// What is known of the files.
pub struct Nfs4FileSystem {
    pub config: FsConfig,
    pub path_cache: PathCache,
    pub status_cache: Option<Cache<u64, FileStatus>>,
    pub file_data: Cache<u64, Vec<u8>>,
    pub open_files: HashMap<u64, OpenFile>,
    pub next_handle: u64,
}

/// The bytes of the handle of a file.
pub open spec fn handle_of(generation: u64, fileid: Fileid4) -> Seq<u8> {
    le64(generation) + le64(fileid)
}

/// The file that a handle is of, or what is wrong with the handle.
pub open spec fn file_of(generation: u64, handle: Seq<u8>) -> Result<Fileid4, Nfs4Status> {
    if handle.len() != 16 {
        Err(Nfs4Status::Badhandle)
    } else if le64_at(handle) != generation {
        Err(Nfs4Status::Stale)
    } else {
        Ok(le64_at(handle.skip(8)))
    }
}

/// The handle of a file leads back to the file, and one of another cluster is refused as stale.
pub proof fn law_handle_leads_to_its_file(generation: u64, other: u64, fileid: Fileid4)
    ensures
        file_of(generation, handle_of(generation, fileid)) == Ok::<u64, Nfs4Status>(fileid),
        other != generation ==> file_of(generation, handle_of(other, fileid)) == Err::<
            u64,
            Nfs4Status,
        >(Nfs4Status::Stale),
{
    crate::bytes::le64_round_trip(generation, le64(fileid), le64(fileid));
    crate::bytes::le64_round_trip(other, le64(fileid), le64(fileid));
    crate::bytes::le64_round_trip(fileid, le64(fileid), Seq::empty());
    assert(handle_of(generation, fileid).skip(8) =~= le64(fileid) + Seq::<u8>::empty());
}

impl Nfs4FileSystem {
    /// What was noted of the statuses of files.
    pub open spec fn statuses(&self) -> Map<u64, FileStatus> {
        match self.status_cache {
            Some(c) => kept_statuses(c),
            None => Map::empty(),
        }
    }

    /// What was noted of the contents of small files.
    pub open spec fn contents(&self) -> Map<u64, Seq<u8>> {
        kept_data(self.file_data)
    }

    /// The root is known.
    pub open spec fn wf(&self) -> bool {
        self.path_cache.root_id == ROOT_FILEID
    }

    /// The same paths.
    pub open spec fn same_paths(&self, before: &Self) -> bool {
        &&& self.path_cache.paths() == before.path_cache.paths()
        &&& self.path_cache.ids() == before.path_cache.ids()
        &&& self.path_cache.root_id == before.path_cache.root_id
    }

    /// The same open files.
    pub open spec fn same_files(&self, before: &Self) -> bool {
        &&& self.open_files@ == before.open_files@
        &&& self.next_handle == before.next_handle
    }

    /// The same settings.
    pub open spec fn same_config(&self, before: &Self) -> bool {
        &&& self.config == before.config
        &&& self.status_cache is Some == before.status_cache is Some
    }

    /// Nothing differs.
    pub open spec fn unchanged(&self, before: &Self) -> bool {
        &&& self.same_config(before)
        &&& self.same_paths(before)
        &&& self.same_files(before)
        &&& self.statuses() == before.statuses()
        &&& self.contents() == before.contents()
    }

    /// Nothing is known and nothing is open.
    pub fn new(config: FsConfig) -> (r: Self)
        requires
            config.wf(),
        ensures
            r.wf(),
            r.config == config,
            r.path_cache.paths() == Map::<u64, Seq<char>>::empty(),
            r.path_cache.ids() == Map::<Seq<char>, u64>::empty(),
            r.status_cache is Some <==> config.file_status_cache_size >= 0,
            r.statuses() == Map::<u64, FileStatus>::empty(),
            r.contents() == Map::<u64, Seq<u8>>::empty(),
            r.open_files@ == Map::<u64, OpenFile>::empty(),
            r.next_handle == 1,
    {
        let status_cache = if config.file_status_cache_size >= 0 {
            Some(
                new_statuses(
                    config.file_status_cache_size as u64,
                    config.file_status_cache_ttl_secs,
                ),
            )
        } else {
            None
        };
        Nfs4FileSystem {
            config,
            path_cache: PathCache::new(
                config.path_cache_size,
                config.path_cache_ttl_secs,
                ROOT_FILEID,
            ),
            status_cache,
            file_data: new_data(config.file_data_cache_size, config.file_data_cache_ttl_secs),
            open_files: HashMap::new(),
            next_handle: 1,
        }
    }

    /// The path of a file.
    pub fn get_path(&self, fileid: Fileid4) -> (r: Nfs4Result<String>)
        requires
            self.wf(),
        ensures
            r is Ok ==> self.path_cache.path_of(fileid) == Some(r->Ok_0@),
            r is Err ==> fails_with(r, Nfs4Status::Stale) && fileid != ROOT_FILEID,
    {
        match self.path_cache.get_path(fileid) {
            Some(p) => Ok(p),
            None => failure(Nfs4Status::Stale),
        }
    }

    /// Notes the path of a file.
    pub fn cache_path(&mut self, fileid: Fileid4, path: String)
        ensures
            final(self).has_noted_path(old(self), fileid, path@),
            final(self).same_config(old(self)),
            final(self).same_files(old(self)),
            final(self).statuses() == old(self).statuses(),
            final(self).contents() == old(self).contents(),
    {
        self.path_cache.insert(fileid, path);
    }

    /// The paths are those of `before` with one noted.
    pub open spec fn has_noted_path(
        &self,
        before: &Self,
        fileid: Fileid4,
        path: Seq<char>,
    ) -> bool {
        let root_id = before.path_cache.root_id;
        &&& self.path_cache.root_id == root_id
        &&& self.path_cache.paths() == if fileid == root_id {
            before.path_cache.paths()
        } else {
            before.path_cache.paths().insert(fileid, path)
        }
        &&& self.path_cache.ids() == if fileid == root_id {
            before.path_cache.ids()
        } else {
            before.path_cache.ids().insert(path, fileid)
        }
    }

    /// The handle of a file.
    pub fn fileid_to_fh(&self, fileid: Fileid4) -> (r: Nfs4FileHandle)
        ensures
            r@ == handle_of(self.config.cluster_generation, fileid),
    {
        let mut data: Vec<u8> = Vec::new();
        put_le64(&mut data, self.config.cluster_generation);
        put_le64(&mut data, fileid);
        assert(data@ =~= handle_of(self.config.cluster_generation, fileid));
        Nfs4FileHandle::new(data)
    }

    /// The file that a handle is of.
    pub fn fh_to_fileid(&self, fh: &Nfs4FileHandle) -> (r: Nfs4Result<Fileid4>)
        ensures
            match file_of(self.config.cluster_generation, fh@) {
                Ok(f) => r == Ok::<u64, crate::error::Nfs4Error>(f),
                Err(st) => fails_with(r, st),
            },
    {
        if fh.data.len() != 16 {
            return failure(Nfs4Status::Badhandle);
        }
        let generation: u64 = get_le64(fh.data.as_slice(), 0);
        let fileid: u64 = get_le64(fh.data.as_slice(), 8);
        assert(fh@.skip(0) =~= fh@);
        if generation != self.config.cluster_generation {
            return failure(Nfs4Status::Stale);
        }
        Ok(fileid)
    }

    /// What is remembered of the status of a file.
    pub fn remembered_status(&self, fileid: Fileid4) -> (r: Option<FileStatus>)
        ensures
            r is Some ==> self.statuses().contains_key(fileid) && r->Some_0 == self.statuses()[fileid],
    {
        match &self.status_cache {
            Some(c) => get_status(c, &fileid),
            None => None,
        }
    }

    /// Notes the status of a file, where statuses are remembered.
    pub fn note_status(&mut self, fileid: Fileid4, status: FileStatus)
        ensures
            final(self).same_config(old(self)),
            final(self).same_paths(old(self)),
            final(self).same_files(old(self)),
            final(self).contents() == old(self).contents(),
            final(self).statuses() == old(self).noting(fileid, status),
    {
        if let Some(c) = self.status_cache.as_mut() {
            put_status(c, fileid, status);
        }
    }

    /// The statuses that are noted after one more was.
    pub open spec fn noting(&self, fileid: Fileid4, status: FileStatus) -> Map<u64, FileStatus> {
        if self.status_cache is Some {
            self.statuses().insert(fileid, status)
        } else {
            self.statuses()
        }
    }

    /// Forgets the status of a file, because the file has changed.
    pub fn invalidate_status_cache(&mut self, fileid: Fileid4)
        ensures
            final(self).same_config(old(self)),
            final(self).same_paths(old(self)),
            final(self).same_files(old(self)),
            final(self).contents() == old(self).contents(),
            final(self).statuses() == old(self).statuses().remove(fileid),
    {
        if let Some(c) = self.status_cache.as_mut() {
            drop_status(c, &fileid);
        }
        assert(self.statuses() =~= old(self).statuses().remove(fileid));
    }

    /// Forgets the status of a file that was written.
    pub fn invalidate_status_cache_for_write(&mut self, fileid: Fileid4)
        ensures
            final(self).same_config(old(self)),
            final(self).same_paths(old(self)),
            final(self).same_files(old(self)),
            final(self).contents() == old(self).contents(),
            final(self).statuses() == old(self).statuses().remove(fileid),
    {
        self.invalidate_status_cache(fileid);
    }

    /// What is remembered of the contents of a small file.
    pub fn get_file_data(&self, fileid: Fileid4) -> (r: Option<Vec<u8>>)
        ensures
            r is Some ==> self.contents().contains_key(fileid) && r->Some_0@ == self.contents()[fileid],
    {
        get_data(&self.file_data, &fileid)
    }

    /// Notes the contents of a small file.
    pub fn insert_file_data(&mut self, fileid: Fileid4, data: Vec<u8>)
        ensures
            final(self).same_config(old(self)),
            final(self).same_paths(old(self)),
            final(self).same_files(old(self)),
            final(self).statuses() == old(self).statuses(),
            final(self).contents() == old(self).contents().insert(fileid, data@),
    {
        put_data(&mut self.file_data, fileid, data);
    }

    /// Forgets the contents of a file, because the file has changed.
    pub fn invalidate_file_data(&mut self, fileid: Fileid4)
        ensures
            final(self).same_config(old(self)),
            final(self).same_paths(old(self)),
            final(self).same_files(old(self)),
            final(self).statuses() == old(self).statuses(),
            final(self).contents() == old(self).contents().remove(fileid),
    {
        drop_data(&mut self.file_data, &fileid);
    }

    /// The open file of a file, if it is open.
    pub fn get_open_file(&self, fileid: Fileid4) -> (r: Option<&OpenFile>)
        ensures
            match r {
                Some(f) => self.open_files@.contains_key(fileid) && *f == self.open_files@[fileid],
                None => !self.open_files@.contains_key(fileid),
            },
    {
        self.open_files.get(&fileid)
    }

    /// The number of the root.
    pub fn root_fileid(&self) -> (r: Fileid4)
        ensures
            r == ROOT_FILEID,
    {
        ROOT_FILEID
    }

    /// Whether nothing may be changed.
    pub fn is_read_only(&self) -> (r: bool)
        ensures
            r == self.config.read_only,
    {
        self.config.read_only
    }
}

} // verus!
