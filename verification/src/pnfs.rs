//! Layouts, and reading blocks where they are kept.

use crate::bytes::{
    be32, be64, bytes_eq, bytes_vec, get_le32, get_le64, key12, key12_injective, key16, key_of12,
    key_of16, le32, le32_at, le32_round_trip, le64, le64_at, le64_round_trip, opaque, put_bytes,
    put_le32, put_le64, put_opaque, put_u32, put_u64, put_zeros, skip_prefix, to_array, zeros,
    XdrError,
};
use crate::error::{failure, fails_with, Nfs4Result, Nfs4Status};
use crate::table::keys128;
use crate::text::{decimal, put_decimal, text_bytes};
use crate::time::{unix_time, Duration};
use crate::types::{FileAttrs, Fileid4, Nfs4FileHandle, Nfs4FileType, Nfstime4, Stateid4};
use std::collections::HashMap;
use vstd::prelude::*;
use vstd::string::StringExecFns;

verus! {

broadcast use vstd::std_specs::hash::group_hash_axioms;

/// Layouts of whole files on data servers.
pub const LAYOUT4_NFSV4_1_FILES: u32 = 1;

/// A layout that is only read through.
pub const LAYOUTIOMODE4_READ: u32 = 1;

/// A layout that is written through too.
pub const LAYOUTIOMODE4_RW: u32 = 2;

/// The layouts of one file are given back.
pub const LAYOUTRETURN4_FILE: u32 = 1;

/// Every server keeps only its own stripes.
pub const NFL4_UFLG_DENSE: u32 = 0x0000_0001;

/// The part of a number that is the size of a stripe.
pub const NFL4_UFLG_STRIPE_UNIT_SIZE_MASK: u32 = 0xFFFF_FFC0;

/// What the handle of a block starts with.
pub const PNFS_BLOCK_FH_MAGIC: u32 = 0x5044_5331;

/// How much of its code the handle of a block holds.
pub const PNFS_BLOCK_FH_TAG_LEN: usize = 16;

// ---------------------------------------------------------------------------
// Where files are kept
// ---------------------------------------------------------------------------

/// A server that keeps blocks.
#[derive(Debug)]
pub struct WorkerAddress {
    pub worker_id: u32,
    pub ip_addr: String,
}

/// A block.
#[derive(Clone, Copy, Debug)]
pub struct ExtendedBlock {
    pub id: i64,
    pub len: i64,
    /// The number of the medium that the block is kept on.
    pub storage_type: u32,
}

/// The numbers that the storage gives the media that blocks are kept on.
#[derive(Debug)]
pub struct StorageTypes {
    pub known: Vec<u32>,
    /// The number of the disk.
    pub disk: u32,
}

impl StorageTypes {
    /// The medium of a number: a number that is not known stands for the disk.
    pub open spec fn medium(&self, code: u32) -> u32 {
        if self.known@.contains(code) {
            code
        } else {
            self.disk
        }
    }

    /// The medium of a number: a number that is not known stands for the disk.
    pub fn medium_of(&self, code: u32) -> (r: u32)
        ensures
            r == self.medium(code),
    {
        let mut i: usize = 0;
        while i < self.known.len()
            invariant
                i <= self.known@.len(),
                forall|j: int| 0 <= j < i ==> #[trigger] self.known@[j] != code,
            decreases self.known@.len() - i,
        {
            if self.known[i] == code {
                assert(self.known@[i as int] == code);
                return code;
            }
            i += 1;
        }
        self.disk
    }
}

/// A block, and who keeps it.
#[derive(Debug)]
pub struct LocatedBlock {
    pub block: ExtendedBlock,
    pub locs: Vec<WorkerAddress>,
}

/// The blocks of a file.
#[derive(Debug)]
pub struct FileBlocks {
    pub block_locs: Vec<LocatedBlock>,
}

// ---------------------------------------------------------------------------
// Handles of blocks
// ---------------------------------------------------------------------------

/// The message authentication code of `msg` under `key`, by HMAC over SHA-256.
pub uninterp spec fn hmac_sha256(key: Seq<u8>, msg: Seq<u8>) -> Seq<u8>;

/// `hmac::Hmac::<sha2::Sha256>`: made from a key of any length, fed the message, and finished. What
/// comes out depends on the key and the message alone.
#[verifier::external_body]
fn block_fh_tag(body: &[u8], verifier: &[u8]) -> (r: [u8; 32])
    ensures
        r@ == hmac_sha256(verifier@, body@),
{
    let mut mac = <hmac::Hmac<sha2::Sha256> as hmac::Mac>::new_from_slice(verifier)
        .expect("a key of any length will do");
    hmac::Mac::update(&mut mac, body);
    hmac::Mac::finalize(mac).into_bytes().into()
}

/// What the handle of a block says, before its tag.
pub open spec fn block_body(worker: u32, block: ExtendedBlock) -> Seq<u8> {
    le32(PNFS_BLOCK_FH_MAGIC) + le32(worker) + le64(block.id as u64) + le64(block.len as u64)
        + le32(block.storage_type)
}

/// The handle of a block: what it says, and the start of the code that shows that the server has
/// made it.
pub open spec fn block_handle(worker: u32, block: ExtendedBlock, verifier: Seq<u8>) -> Seq<u8> {
    block_body(worker, block) + hmac_sha256(verifier, block_body(worker, block)).take(
        PNFS_BLOCK_FH_TAG_LEN as int,
    )
}

/// A block, and the server that is to read it.
#[derive(Clone, Copy, Debug)]
pub struct PnfsBlockHandle {
    pub worker_id: u32,
    pub block: ExtendedBlock,
}

/// The worker that a handle names: the first that keeps the block, or none.
pub open spec fn first_worker(first: Option<&WorkerAddress>) -> u32 {
    match first {
        Some(w) => w.worker_id,
        None => 0,
    }
}

/// The handle of a block. It leads the server that has made it back to the block, as far as the
/// medium is known there.
pub fn encode_block_fh(block: &ExtendedBlock, first: Option<&WorkerAddress>, verifier: &[u8]) -> (r:
    Nfs4FileHandle)
    ensures
        r@ == block_handle(first_worker(first), *block, verifier@),
        forall|types: StorageTypes| #[trigger]
            verified_block_of(r@, verifier@, types) == Some(
                (PnfsBlockHandle {
                    worker_id: first_worker(first),
                    block: ExtendedBlock {
                        storage_type: types.medium(block.storage_type),
                        ..*block
                    },
                }),
            ),
{
    let worker: u32 = match first {
        Some(w) => w.worker_id,
        None => 0,
    };
    let body = encode_block_body(worker, block);
    let tag = block_fh_tag(body.as_slice(), verifier);
    proof {
        let code = tag@.take(PNFS_BLOCK_FH_TAG_LEN as int);
        body_parts(worker, *block, code);
        skip_prefix(body@, code);
        assert((body@ + code).take(28) =~= body@);
        signed_again(block.id);
        signed_again(block.len);
    }
    tagged_block_fh(body, &tag)
}

/// What the handle of a block says, before its tag.
pub fn encode_block_body(worker: u32, block: &ExtendedBlock) -> (r: Vec<u8>)
    ensures
        r@ == block_body(worker, *block),
{
    let mut data: Vec<u8> = Vec::new();
    put_le32(&mut data, PNFS_BLOCK_FH_MAGIC);
    put_le32(&mut data, worker);
    put_le64(&mut data, #[verifier::truncate] (block.id as u64));
    put_le64(&mut data, #[verifier::truncate] (block.len as u64));
    put_le32(&mut data, block.storage_type);
    assert(data@ =~= block_body(worker, *block));
    data
}

/// The handle that says `body` and has the start of a code as its tag.
pub fn tagged_block_fh(body: Vec<u8>, tag: &[u8; 32]) -> (r: Nfs4FileHandle)
    ensures
        r@ == body@ + tag@.take(PNFS_BLOCK_FH_TAG_LEN as int),
{
    let mut data = body;
    let mut i: usize = 0;
    while i < PNFS_BLOCK_FH_TAG_LEN
        invariant
            i <= PNFS_BLOCK_FH_TAG_LEN,
            data@ == body@ + tag@.take(i as int),
        decreases PNFS_BLOCK_FH_TAG_LEN - i,
    {
        data.push(tag[i]);
        i += 1;
        assert(data@ =~= body@ + tag@.take(i as int));
    }
    Nfs4FileHandle::new(data)
}

/// Whether a handle has the form of that of a block.
pub open spec fn looks_like_block(fh: Seq<u8>) -> bool {
    fh.len() == 28 + PNFS_BLOCK_FH_TAG_LEN && le32_at(fh) == PNFS_BLOCK_FH_MAGIC
}

/// Whether a handle has the form of that of a block.
pub fn is_block_fh(fh: &Nfs4FileHandle) -> (r: bool)
    ensures
        r == looks_like_block(fh@),
{
    assert(fh@.skip(0) =~= fh@);
    fh.data.len() == 28 + PNFS_BLOCK_FH_TAG_LEN && get_le32(fh.data.as_slice(), 0)
        == PNFS_BLOCK_FH_MAGIC
}

/// What the handle of a block says.
pub open spec fn block_of(fh: Seq<u8>, types: StorageTypes) -> Option<PnfsBlockHandle> {
    if looks_like_block(fh) {
        Some(
            PnfsBlockHandle {
                worker_id: le32_at(fh.skip(4)),
                block: ExtendedBlock {
                    id: le64_at(fh.skip(8)) as i64,
                    len: le64_at(fh.skip(16)) as i64,
                    storage_type: types.medium(le32_at(fh.skip(24))),
                },
            },
        )
    } else {
        None
    }
}

/// What the handle of a block says.
pub fn decode_block_fh(fh: &Nfs4FileHandle, types: &StorageTypes) -> (r: Option<PnfsBlockHandle>)
    ensures
        r == block_of(fh@, *types),
{
    if !is_block_fh(fh) {
        return None;
    }
    let data = fh.data.as_slice();
    let id: u64 = get_le64(data, 8);
    let len: u64 = get_le64(data, 16);
    Some(
        PnfsBlockHandle {
            worker_id: get_le32(data, 4),
            block: ExtendedBlock {
                id: #[verifier::truncate] (id as i64),
                len: #[verifier::truncate] (len as i64),
                storage_type: types.medium_of(get_le32(data, 24)),
            },
        },
    )
}

/// What the handle of a block says, if the server has made it.
pub open spec fn verified_block_of(
    fh: Seq<u8>,
    verifier: Seq<u8>,
    types: StorageTypes,
) -> Option<PnfsBlockHandle> {
    if looks_like_block(fh) && hmac_sha256(verifier, fh.take(28)).take(
        PNFS_BLOCK_FH_TAG_LEN as int,
    ) == fh.skip(28) {
        block_of(fh, types)
    } else {
        None
    }
}

/// What the handle of a block says, if the server has made it.
pub fn decode_verified_block_fh(
    fh: &Nfs4FileHandle,
    verifier: &[u8],
    types: &StorageTypes,
) -> (r: Option<PnfsBlockHandle>)
    ensures
        r == verified_block_of(fh@, verifier@, *types),
{
    if !is_block_fh(fh) {
        return None;
    }
    let data = fh.data.as_slice();
    assert(fh@.subrange(0, 28) =~= fh@.take(28));
    let expected = block_fh_tag(vstd::slice::slice_subrange(data, 0, 28), verifier);
    decode_tagged_block_fh(fh, &expected, types)
}

/// What the handle of a block says, if its tag is the start of the expected code.
pub fn decode_tagged_block_fh(
    fh: &Nfs4FileHandle,
    expected: &[u8; 32],
    types: &StorageTypes,
) -> (r: Option<PnfsBlockHandle>)
    ensures
        r == if looks_like_block(fh@) && expected@.take(PNFS_BLOCK_FH_TAG_LEN as int) == fh@.skip(
            28,
        ) {
            block_of(fh@, *types)
        } else {
            None
        },
{
    if !is_block_fh(fh) {
        return None;
    }
    let data = fh.data.as_slice();
    let tag = vstd::slice::slice_subrange(
        vstd::array::array_as_slice(expected),
        0,
        PNFS_BLOCK_FH_TAG_LEN,
    );
    let given = vstd::slice::slice_subrange(data, 28, data.len());
    assert(given@ =~= fh@.skip(28));
    assert(tag@ =~= expected@.take(PNFS_BLOCK_FH_TAG_LEN as int));
    if !bytes_eq(tag, given) {
        return None;
    }
    decode_block_fh(fh, types)
}

proof fn body_parts(worker: u32, block: ExtendedBlock, t: Seq<u8>)
    ensures
        block_body(worker, block).len() == 28,
        le32_at(block_body(worker, block) + t) == PNFS_BLOCK_FH_MAGIC,
        le32_at((block_body(worker, block) + t).skip(4)) == worker,
        le64_at((block_body(worker, block) + t).skip(8)) == block.id as u64,
        le64_at((block_body(worker, block) + t).skip(16)) == block.len as u64,
        le32_at((block_body(worker, block) + t).skip(24)) == block.storage_type,
{
    let a = le32(PNFS_BLOCK_FH_MAGIC);
    let b = le32(worker);
    let c = le64(block.id as u64);
    let d = le64(block.len as u64);
    let e = le32(block.storage_type);
    let t4 = e + t;
    let t3 = d + t4;
    let t2 = c + t3;
    let t1 = b + t2;
    let all = block_body(worker, block) + t;
    le32_round_trip(PNFS_BLOCK_FH_MAGIC, t1, t1);
    le32_round_trip(worker, t2, t2);
    le64_round_trip(block.id as u64, t3, t3);
    le64_round_trip(block.len as u64, t4, t4);
    le32_round_trip(block.storage_type, t, t);
    assert(all =~= a + t1);
    assert(all.skip(4) =~= t1);
    assert(all.skip(8) =~= t2);
    assert(all.skip(16) =~= t3);
    assert(all.skip(24) =~= t4);
}

proof fn signed_again(x: i64)
    ensures
        (x as u64) as i64 == x,
{
    assert((x as u64) as i64 == x) by (bit_vector);
}

// ---------------------------------------------------------------------------
// Layouts
// ---------------------------------------------------------------------------

/// A layout that a client holds.
#[derive(Clone, Copy, Debug)]
pub struct LayoutState {
    pub stateid: Stateid4,
    pub clientid: u64,
    pub fileid: Fileid4,
    pub deviceid: [u8; 16],
}

/// What is known of the servers of a file, and how many layouts speak of them.
#[derive(Debug)]
pub struct DeviceState {
    pub blocks: FileBlocks,
    pub refs: usize,
}

/// What layouts there are.
pub struct PnfsManager {
    pub layouts: HashMap<u128, LayoutState>,
    pub devices: HashMap<u128, DeviceState>,
    pub next_layout: u32,
    pub boot_time: u64,
}

/// What the servers of a file go by.
pub open spec fn device_id(fileid: Fileid4) -> Seq<u8> {
    le32(0x5050_4653) + zeros(4) + le64(fileid)
}

fn encode_deviceid(fileid: Fileid4) -> (r: [u8; 16])
    ensures
        r@ == device_id(fileid),
{
    let mut id: Vec<u8> = Vec::new();
    put_le32(&mut id, 0x5050_4653);
    put_zeros(&mut id, 4);
    put_le64(&mut id, fileid);
    assert(id@ =~= device_id(fileid));
    proof {
        le64_round_trip(fileid, Seq::empty(), Seq::empty());
    }
    to_array(id.as_slice())
}

/// What tells the `n`th layout apart from all others.
pub open spec fn layout_other(boot: u64, n: u32) -> Seq<u8> {
    le32(0x504E_4653) + le32(boot as u32) + le32(n)
}

proof fn layout_serial(boot: u64, n: u32)
    ensures
        layout_other(boot, n).len() == 12,
        le32_at(layout_other(boot, n).skip(8)) == n,
{
    le32_round_trip(n, Seq::empty(), Seq::empty());
    assert(layout_other(boot, n).skip(8) =~= le32(n) + Seq::<u8>::empty());
}

/// Two layouts go by different ids.
pub proof fn law_layout_ids_differ(boot: u64, n: u32, m: u32)
    requires
        n != m,
    ensures
        layout_other(boot, n) != layout_other(boot, m),
{
    layout_serial(boot, n);
    layout_serial(boot, m);
}

/// The layouts that speak of some servers.
pub open spec fn holders(m: Map<u128, LayoutState>, d: u128) -> Set<u128> {
    m.dom().filter(|k: u128| key16(m[k].deviceid@) == d)
}

proof fn holders_with(m: Map<u128, LayoutState>, k: u128, l: LayoutState, d: u128)
    requires
        m.dom().finite(),
        !m.contains_key(k),
    ensures
        holders(m.insert(k, l), d).finite(),
        holders(m.insert(k, l), d).len() == holders(m, d).len() + if key16(l.deviceid@) == d {
            1int
        } else {
            0
        },
{
    let n = m.insert(k, l);
    m.dom().lemma_len_filter(|k: u128| key16(m[k].deviceid@) == d);
    if key16(l.deviceid@) == d {
        assert(holders(n, d) =~= holders(m, d).insert(k));
    } else {
        assert(holders(n, d) =~= holders(m, d));
    }
}

proof fn holders_without(m: Map<u128, LayoutState>, k: u128, d: u128)
    requires
        m.dom().finite(),
        m.contains_key(k),
    ensures
        holders(m, d).len() == holders(m.remove(k), d).len() + if key16(m[k].deviceid@) == d {
            1int
        } else {
            0
        },
{
    let n = m.remove(k);
    holders_with(n, k, m[k], d);
    assert(n.insert(k, m[k]) =~= m);
}

impl PnfsManager {
    /// Whether servers are known exactly as long as a layout speaks of them.
    pub open spec fn counted(&self) -> bool {
        forall|d: u128|
            #![trigger self.devices@.contains_key(d)]
            #![trigger holders(self.layouts@, d)]
            {
                &&& self.devices@.contains_key(d) <==> holders(self.layouts@, d).len() > 0
                &&& self.devices@.contains_key(d) ==> self.devices@[d].refs == holders(
                    self.layouts@,
                    d,
                ).len()
            }
    }

    /// Layouts go by ids that were handed out, and the servers are those of the file.
    pub open spec fn layout_ok(&self, k: u128) -> bool {
        let l = self.layouts@[k];
        &&& key12(l.stateid.other@) == k
        &&& le32_at(l.stateid.other@.skip(8)) < self.next_layout
        &&& l.deviceid@ == device_id(l.fileid)
    }

    /// Nothing is known of servers that no layout speaks of, and all of those that one does.
    pub open spec fn wf(&self) -> bool {
        &&& forall|k: u128| #[trigger] self.layouts@.contains_key(k) ==> self.layout_ok(k)
        &&& self.counted()
    }

    /// There are no layouts.
    pub fn new() -> (r: Self)
        ensures
            r.wf(),
            r.layouts@ == Map::<u128, LayoutState>::empty(),
            r.devices@ == Map::<u128, DeviceState>::empty(),
            r.next_layout == 1,
    {
        let r = PnfsManager {
            layouts: HashMap::new(),
            devices: HashMap::new(),
            next_layout: 1,
            boot_time: unix_time().as_secs(),
        };
        proof {
            assert forall|d: u128|
                #![trigger r.devices@.contains_key(d)]
                #![trigger holders(r.layouts@, d)]
                holders(r.layouts@, d).len() == 0 by {
                assert(holders(r.layouts@, d) =~= Set::<u128>::empty());
            }
        }
        r
    }

    /// What the servers of a file go by.
    pub fn deviceid(&self, fileid: Fileid4) -> (r: [u8; 16])
        ensures
            r@ == device_id(fileid),
    {
        encode_deviceid(fileid)
    }

    /// Who a handle of a block leads to.
    pub open spec fn keeper(b: LocatedBlock) -> u32 {
        if b.locs@.len() > 0 {
            b.locs@[0].worker_id
        } else {
            0
        }
    }

    /// The handles of the blocks of a file.
    pub fn block_handles(&self, blocks: &FileBlocks, verifier: &[u8]) -> (r: Vec<Nfs4FileHandle>)
        ensures
            r@.len() == blocks.block_locs@.len(),
            forall|i: int|
                0 <= i < r@.len() ==> (#[trigger] r@[i])@ == block_handle(
                    Self::keeper(blocks.block_locs@[i]),
                    blocks.block_locs@[i].block,
                    verifier@,
                ),
    {
        let mut out: Vec<Nfs4FileHandle> = Vec::new();
        let mut i: usize = 0;
        while i < blocks.block_locs.len()
            invariant
                i <= blocks.block_locs@.len(),
                out@.len() == i,
                forall|j: int|
                    0 <= j < i ==> (#[trigger] out@[j])@ == block_handle(
                        Self::keeper(blocks.block_locs@[j]),
                        blocks.block_locs@[j].block,
                        verifier@,
                    ),
            decreases blocks.block_locs@.len() - i,
        {
            let b = &blocks.block_locs[i];
            let first = if b.locs.len() > 0 {
                Some(&b.locs[0])
            } else {
                None
            };
            let fh = encode_block_fh(&b.block, first, verifier);
            out.push(fh);
            i += 1;
        }
        out
    }

    fn next_layout_stateid(&mut self) -> (r: Stateid4)
        requires
            old(self).next_layout < u32::MAX,
        ensures
            r.seqid == 1,
            r.other@ == layout_other(old(self).boot_time, old(self).next_layout),
            *final(self) == (PnfsManager {
                next_layout: (old(self).next_layout + 1) as u32,
                ..*old(self)
            }),
    {
        let n: u32 = self.next_layout;
        self.next_layout = n + 1;
        let mut other: Vec<u8> = Vec::new();
        put_le32(&mut other, 0x504E_4653);
        put_le32(&mut other, #[verifier::truncate] (self.boot_time as u32));
        put_le32(&mut other, n);
        assert(other@ =~= layout_other(self.boot_time, n));
        proof {
            layout_serial(self.boot_time, n);
        }
        Stateid4 { seqid: 1, other: to_array(other.as_slice()) }
    }

    /// Hands out a layout of a file.
    pub fn issue_layout(&mut self, clientid: u64, fileid: Fileid4, blocks: FileBlocks) -> (r:
        Stateid4)
        requires
            old(self).wf(),
            old(self).next_layout < u32::MAX,
        ensures
            final(self).wf(),
            r.seqid == 1,
            r.other@ == layout_other(old(self).boot_time, old(self).next_layout),
            final(self).next_layout == old(self).next_layout + 1,
            final(self).boot_time == old(self).boot_time,
            !old(self).layouts@.contains_key(key12(r.other@)),
            exists|l: LayoutState|
                {
                    &&& #[trigger] final(self).layouts@ == old(self).layouts@.insert(
                        key12(r.other@),
                        l,
                    )
                    &&& l.stateid == r
                    &&& l.clientid == clientid
                    &&& l.fileid == fileid
                    &&& l.deviceid@ == device_id(fileid)
                },
            final(self).devices@.contains_key(key16(device_id(fileid))),
            final(self).devices@[key16(device_id(fileid))].blocks == blocks,
            forall|d: u128|
                d != key16(device_id(fileid)) && #[trigger] old(self).devices@.contains_key(d)
                    ==> final(self).devices@[d] == old(self).devices@[d],
    {
        let deviceid = self.deviceid(fileid);
        let ghost before = *self;
        let stateid = self.next_layout_stateid();
        let k: u128 = key_of12(&stateid.other);
        let d: u128 = key_of16(&deviceid);
        let layout = LayoutState { stateid, clientid, fileid, deviceid };
        proof {
            layout_serial(before.boot_time, before.next_layout);
            if before.layouts@.contains_key(k) {
                assert(before.layout_ok(k));
                key12_injective(before.layouts@[k].stateid.other@, stateid.other@);
            }
        }
        self.layouts.insert(k, layout);
        let count: usize = self.layouts.len();
        proof {
            holders_with(before.layouts@, k, layout, d);
            holders_len(self.layouts@, d);
            assert(before.devices@.contains_key(d) ==> before.devices@[d].refs < count);
        }
        let refs: usize = match self.devices.remove(&d) {
            Some(entry) => entry.refs + 1,
            None => 1,
        };
        self.devices.insert(d, DeviceState { blocks, refs });
        proof {
            assert forall|e: u128|
                #![trigger self.devices@.contains_key(e)]
                #![trigger holders(self.layouts@, e)]
                {
                    &&& self.devices@.contains_key(e) <==> holders(self.layouts@, e).len() > 0
                    &&& self.devices@.contains_key(e) ==> self.devices@[e].refs == holders(
                        self.layouts@,
                        e,
                    ).len()
                } by {
                holders_with(before.layouts@, k, layout, e);
                assert(before.devices@.contains_key(e) <==> holders(before.layouts@, e).len() > 0);
            }
            assert forall|j: u128| #[trigger] self.layouts@.contains_key(j) implies self.layout_ok(
                j,
            ) by {
                if j != k {
                    assert(before.layout_ok(j));
                }
            }
            assert(self.layouts@ == before.layouts@.insert(k, layout));
        }
        stateid
    }

    /// Whether a layout was taken back: it is gone, and so are its servers when no other layout
    /// speaks of them.
    pub open spec fn has_returned(&self, before: &PnfsManager, k: u128) -> bool {
        &&& self.layouts@ == before.layouts@.remove(k)
        &&& self.next_layout == before.next_layout
        &&& self.boot_time == before.boot_time
        &&& forall|d: u128| #[trigger]
            self.devices@.contains_key(d) ==> before.devices@.contains_key(d)
                && self.devices@[d].blocks == before.devices@[d].blocks
    }

    /// Takes a layout back.
    pub fn return_layout(&mut self, stateid: &Stateid4) -> (r: Option<LayoutState>)
        requires
            old(self).wf(),
        ensures
            final(self).wf(),
            final(self).has_returned(old(self), key12(stateid.other@)),
            r == if old(self).layouts@.contains_key(key12(stateid.other@)) {
                Some(old(self).layouts@[key12(stateid.other@)])
            } else {
                None
            },
    {
        let ghost before = *self;
        let k: u128 = key_of12(&stateid.other);
        let layout = match self.layouts.remove(&k) {
            Some(l) => l,
            None => {
                assert(self.layouts@ =~= before.layouts@);
                return None;
            },
        };
        let d: u128 = key_of16(&layout.deviceid);
        match self.devices.remove(&d) {
            Some(entry) => {
                if entry.refs > 1 {
                    self.devices.insert(
                        d,
                        DeviceState { blocks: entry.blocks, refs: entry.refs - 1 },
                    );
                }
            },
            None => {},
        }
        proof {
            assert forall|e: u128|
                #![trigger self.devices@.contains_key(e)]
                #![trigger holders(self.layouts@, e)]
                {
                    &&& self.devices@.contains_key(e) <==> holders(self.layouts@, e).len() > 0
                    &&& self.devices@.contains_key(e) ==> self.devices@[e].refs == holders(
                        self.layouts@,
                        e,
                    ).len()
                } by {
                holders_without(before.layouts@, k, e);
                assert(before.devices@.contains_key(e) <==> holders(before.layouts@, e).len() > 0);
            }
            assert forall|j: u128| #[trigger] self.layouts@.contains_key(j) implies self.layout_ok(
                j,
            ) by {
                assert(before.layout_ok(j));
            }
        }
        Some(layout)
    }

    /// What is known of some servers.
    pub fn device(&self, deviceid: &[u8; 16]) -> (r: Option<&FileBlocks>)
        ensures
            r == if self.devices@.contains_key(key16(deviceid@)) {
                Some(&self.devices@[key16(deviceid@)].blocks)
            } else {
                None
            },
    {
        match self.devices.get(&key_of16(deviceid)) {
            Some(d) => Some(&d.blocks),
            None => None,
        }
    }

    /// The layout that goes by an id.
    pub fn layout(&self, stateid: &Stateid4) -> (r: Option<LayoutState>)
        ensures
            r == if self.layouts@.contains_key(key12(stateid.other@)) {
                Some(self.layouts@[key12(stateid.other@)])
            } else {
                None
            },
    {
        match self.layouts.get(&key_of12(&stateid.other)) {
            Some(l) => Some(*l),
            None => None,
        }
    }

    /// Takes all layouts of a client back.
    pub fn release_client(&mut self, clientid: u64)
        requires
            old(self).wf(),
        ensures
            final(self).wf(),
            forall|k: u128| #[trigger]
                final(self).layouts@.contains_key(k) <==> old(self).layouts@.contains_key(k) && old(
                    self,
                ).layouts@[k].clientid != clientid,
            forall|k: u128| #[trigger]
                final(self).layouts@.contains_key(k) ==> final(self).layouts@[k] == old(
                    self,
                ).layouts@[k],
            forall|d: u128| #[trigger]
                final(self).devices@.contains_key(d) ==> old(self).devices@.contains_key(d)
                    && final(self).devices@[d].blocks == old(self).devices@[d].blocks,
            final(self).next_layout == old(self).next_layout,
            final(self).boot_time == old(self).boot_time,
    {
        let keys = keys128(&self.layouts);
        let ghost before = *self;
        let mut i: usize = 0;
        assert forall|j: int| 0 <= j < keys@.len() implies before.layouts@.contains_key(
            #[trigger] keys@[j],
        ) by {
            assert(keys@.contains(keys@[j]));
        }
        while i < keys.len()
            invariant
                i <= keys@.len(),
                keys@.no_duplicates(),
                forall|k: u128| #[trigger]
                    keys@.contains(k) <==> before.layouts@.contains_key(k),
                self.wf(),
                self.next_layout == before.next_layout,
                self.boot_time == before.boot_time,
                forall|k: u128| #[trigger]
                    self.layouts@.contains_key(k) ==> before.layouts@.contains_key(k)
                        && self.layouts@[k] == before.layouts@[k],
                forall|j: int|
                    0 <= j < keys@.len() ==> (self.layouts@.contains_key(#[trigger] keys@[j])
                        <==> j >= i || before.layouts@[keys@[j]].clientid != clientid),
                forall|d: u128| #[trigger]
                    self.devices@.contains_key(d) ==> before.devices@.contains_key(d)
                        && self.devices@[d].blocks == before.devices@[d].blocks,
            decreases keys@.len() - i,
        {
            let k: u128 = keys[i];
            assert(self.layouts@.contains_key(keys@[i as int]));
            let ghost mid = *self;
            if let Some(l) = self.layouts.get(&k) {
                if l.clientid == clientid {
                    let sid = l.stateid;
                    assert(self.layout_ok(k));
                    let _ = self.return_layout(&sid);
                }
            }
            i += 1;
        }
        proof {
            assert forall|k: u128| #[trigger] self.layouts@.contains_key(k)
                <==> before.layouts@.contains_key(k) && before.layouts@[k].clientid
                != clientid by {
                if before.layouts@.contains_key(k) {
                    assert(keys@.contains(k));
                    let j = choose|j: int| 0 <= j < keys@.len() && keys@[j] == k;
                    assert(self.layouts@.contains_key(keys@[j]) <==> before.layouts@[keys@[j]].clientid != clientid);
                }
            }
        }
    }
}

proof fn holders_len(m: Map<u128, LayoutState>, d: u128)
    requires
        m.dom().finite(),
    ensures
        holders(m, d).len() <= m.dom().len(),
{
    m.dom().lemma_len_filter(|k: u128| key16(m[k].deviceid@) == d);
}

impl Default for PnfsManager {
    fn default() -> (r: Self)
        ensures
            r.wf(),
            r.layouts@ == Map::<u128, LayoutState>::empty(),
            r.devices@ == Map::<u128, DeviceState>::empty(),
            r.next_layout == 1,
    {
        PnfsManager::new()
    }
}

// ---------------------------------------------------------------------------
// Reading blocks
// ---------------------------------------------------------------------------

/// A server that reads the blocks that it keeps.
pub struct PnfsDataServer {
    pub local_worker: WorkerAddress,
    pub verifier: Vec<u8>,
    pub storage_types: StorageTypes,
}

/// A part of a block.
#[derive(Clone, Copy, Debug)]
pub struct BlockRead {
    pub block: ExtendedBlock,
    pub offset: i64,
    pub len: i64,
}

/// What a read of a block comes to.
pub enum BlockPlan {
    /// There is nothing to read.
    Nothing,
    /// This is to be read.
    Part(BlockRead),
}

/// The length of a block.
pub open spec fn block_len(b: ExtendedBlock) -> u64 {
    if b.len > 0 {
        b.len as u64
    } else {
        0
    }
}

fn len_of_block(b: &ExtendedBlock) -> (r: u64)
    ensures
        r == block_len(*b),
{
    if b.len > 0 {
        b.len as u64
    } else {
        0
    }
}

/// What is to be read where `count` bytes are asked for: as many of them as there are.
pub open spec fn block_plan(b: ExtendedBlock, offset: u64, count: u32) -> BlockPlan {
    if offset >= block_len(b) || count == 0 {
        BlockPlan::Nothing
    } else {
        BlockPlan::Part(
            BlockRead {
                block: b,
                offset: offset as i64,
                len: if block_len(b) - offset < count {
                    (block_len(b) - offset) as i64
                } else {
                    count as i64
                },
            },
        )
    }
}

impl PnfsDataServer {
    /// A server of the given name and secret, that knows the given media.
    pub fn new(local_worker: WorkerAddress, verifier: Vec<u8>, storage_types: StorageTypes) -> (r:
        Self)
        ensures
            r == (PnfsDataServer { local_worker, verifier, storage_types }),
    {
        PnfsDataServer { local_worker, verifier, storage_types }
    }

    /// The block that a handle leads to. A handle that is not of a block leads to none, and one of
    /// another server's block is stale here.
    pub fn resolve_handle(&self, fh: &Nfs4FileHandle) -> (r: Nfs4Result<Option<PnfsBlockHandle>>)
        ensures
            match verified_block_of(fh@, self.verifier@, self.storage_types) {
                None => r is Ok && r->Ok_0 is None,
                Some(h) => if h.worker_id == self.local_worker.worker_id {
                    r is Ok && r->Ok_0 == Some(h)
                } else {
                    fails_with(r, Nfs4Status::Stale)
                },
            },
    {
        match decode_verified_block_fh(fh, self.verifier.as_slice(), &self.storage_types) {
            None => Ok(None),
            Some(handle) => {
                if handle.worker_id != self.local_worker.worker_id {
                    return failure(Nfs4Status::Stale);
                }
                Ok(Some(handle))
            },
        }
    }

    /// Whether these are the attributes of a block at `now`: it is a file that anyone may read, and
    /// its times are the present.
    pub open spec fn are_attrs(handle: PnfsBlockHandle, now: Nfstime4, r: FileAttrs) -> bool {
        &&& r.file_type == Nfs4FileType::Regular
        &&& r.mode == 0x124
        &&& r.nlink == 1
        &&& r.owner@ == seq!['0']
        &&& r.group@ == seq!['0']
        &&& r.size == block_len(handle.block)
        &&& r.used == (block_len(handle.block) + 511) / 512 * 512
        &&& r.fileid == handle.block.id as u64
        &&& r.atime == now
        &&& r.mtime == now
        &&& r.ctime == now
    }

    /// The attributes of a block.
    pub fn attrs(&self, handle: &PnfsBlockHandle) -> (r: FileAttrs)
        ensures
            exists|t: Duration|
                Self::are_attrs(*handle, #[trigger] Nfstime4::of_unix(t), r),
    {
        self.attrs_at(handle, Nfstime4::now())
    }

    /// The attributes of a block at `now`.
    pub fn attrs_at(&self, handle: &PnfsBlockHandle, now: Nfstime4) -> (r: FileAttrs)
        ensures
            Self::are_attrs(*handle, now, r),
    {
        let size: u64 = len_of_block(&handle.block);
        proof {
            reveal_strlit("0");
            assert("0"@ =~= seq!['0']);
        }
        FileAttrs {
            file_type: Nfs4FileType::Regular,
            mode: 0x124,
            nlink: 1,
            owner: String::from_str("0"),
            group: String::from_str("0"),
            size,
            used: (size + 511) / 512 * 512,
            fileid: #[verifier::truncate] (handle.block.id as u64),
            atime: now,
            mtime: now,
            ctime: now,
        }
    }

    /// What is to be read of a block. Blocks have no state, so none may be named.
    pub fn plan(&self, handle: &PnfsBlockHandle, stateid: &Stateid4, offset: u64, count: u32) -> (r:
        Nfs4Result<BlockPlan>)
        ensures
            if stateid.special() {
                r is Ok && r->Ok_0 == block_plan(handle.block, offset, count)
            } else {
                fails_with(r, Nfs4Status::BadStateid)
            },
    {
        if !stateid.is_special() {
            return failure(Nfs4Status::BadStateid);
        }
        let len: u64 = len_of_block(&handle.block);
        if offset >= len || count == 0 {
            return Ok(BlockPlan::Nothing);
        }
        let part: u64 = if len - offset < count as u64 {
            len - offset
        } else {
            count as u64
        };
        Ok(
            BlockPlan::Part(
                BlockRead { block: handle.block, offset: offset as i64, len: part as i64 },
            ),
        )
    }

    /// Whether a read has reached the end of its block.
    pub fn at_end(read: &BlockRead, got: usize) -> (r: bool)
        ensures
            r == (read.offset + got >= block_len(read.block)),
    {
        read.offset as i128 + got as i128 >= len_of_block(&read.block) as i128
    }
}

// ---------------------------------------------------------------------------
// What clients are told
// ---------------------------------------------------------------------------

/// Handles, one behind the other.
pub open spec fn handles_bytes(fhs: Seq<Nfs4FileHandle>) -> Seq<u8>
    decreases fhs.len(),
{
    if fhs.len() == 0 {
        Seq::empty()
    } else {
        handles_bytes(fhs.drop_last()) + opaque(fhs.last()@)
    }
}

/// How a file lies on its servers.
pub open spec fn file_layout_bytes(
    deviceid: Seq<u8>,
    stripe_size: u32,
    fhs: Seq<Nfs4FileHandle>,
) -> Seq<u8> {
    deviceid + be32((stripe_size & NFL4_UFLG_STRIPE_UNIT_SIZE_MASK) | NFL4_UFLG_DENSE) + be32(0)
        + be64(0) + be32(fhs.len() as u32) + handles_bytes(fhs)
}

fn encode_file_layout(deviceid: &[u8; 16], stripe_size: u32, fhs: &[Nfs4FileHandle]) -> (r: Vec<u8>)
    ensures
        r@ == file_layout_bytes(deviceid@, stripe_size, fhs@),
{
    let mut body: Vec<u8> = Vec::new();
    put_bytes(&mut body, vstd::array::array_as_slice(deviceid));
    put_u32(&mut body, (stripe_size & NFL4_UFLG_STRIPE_UNIT_SIZE_MASK) | NFL4_UFLG_DENSE);
    put_u32(&mut body, 0);
    put_u64(&mut body, 0);
    put_u32(&mut body, #[verifier::truncate] (fhs.len() as u32));
    let ghost head = body@;
    assert(fhs@.take(0) =~= Seq::empty());
    assert(head =~= head + handles_bytes(fhs@.take(0)));
    let mut i: usize = 0;
    while i < fhs.len()
        invariant
            i <= fhs@.len(),
            body@ == head + handles_bytes(fhs@.take(i as int)),
        decreases fhs@.len() - i,
    {
        put_opaque(&mut body, fhs[i].data.as_slice());
        i += 1;
        assert(fhs@.take(i as int).drop_last() =~= fhs@.take(i - 1));
        assert(body@ =~= head + handles_bytes(fhs@.take(i as int)));
    }
    assert(fhs@.take(i as int) =~= fhs@);
    assert(body@ =~= file_layout_bytes(deviceid@, stripe_size, fhs@));
    body
}

/// A part of a layout.
pub open spec fn layout_segment_bytes(
    offset: u64,
    length: u64,
    iomode: u32,
    deviceid: Seq<u8>,
    stripe_size: u32,
    fhs: Seq<Nfs4FileHandle>,
) -> Seq<u8> {
    be64(offset) + be64(length) + be32(iomode) + be32(LAYOUT4_NFSV4_1_FILES) + opaque(
        file_layout_bytes(deviceid, stripe_size, fhs),
    )
}

/// Writes a part of a layout.
pub fn encode_layout_segment(
    offset: u64,
    length: u64,
    iomode: u32,
    deviceid: [u8; 16],
    stripe_size: u32,
    fhs: &[Nfs4FileHandle],
) -> (r: Result<Vec<u8>, XdrError>)
    ensures
        if file_layout_bytes(deviceid@, stripe_size, fhs@).len() < u32::MAX {
            r is Ok && r->Ok_0@ == layout_segment_bytes(
                offset,
                length,
                iomode,
                deviceid@,
                stripe_size,
                fhs@,
            )
        } else {
            r is Err && r->Err_0 == XdrError::InvalidData
        },
{
    let layout = encode_file_layout(&deviceid, stripe_size, fhs);
    if layout.len() >= u32::MAX as usize {
        return Err(XdrError::InvalidData);
    }
    let mut body: Vec<u8> = Vec::new();
    put_u64(&mut body, offset);
    put_u64(&mut body, length);
    put_u32(&mut body, iomode);
    put_u32(&mut body, LAYOUT4_NFSV4_1_FILES);
    put_opaque(&mut body, layout.as_slice());
    assert(body@ =~= layout_segment_bytes(
        offset,
        length,
        iomode,
        deviceid@,
        stripe_size,
        fhs@,
    ));
    Ok(body)
}

/// An address as clients are told it: the parts of the host and the two bytes of the port, with
/// dots between them.
pub open spec fn netaddr(addr: WorkerAddress, port: u16) -> Seq<u8> {
    text_bytes(addr.ip_addr@) + seq![46u8] + decimal((port / 256) as nat) + seq![46u8] + decimal(
        (port % 256) as nat,
    )
}

fn encode_netaddr(addr: &WorkerAddress, port: u16) -> (r: Vec<u8>)
    ensures
        r@ == netaddr(*addr, port),
{
    let mut out: Vec<u8> = bytes_vec(addr.ip_addr.as_str().as_bytes());
    out.push(46);
    put_decimal(&mut out, (port / 256) as u64);
    out.push(46);
    put_decimal(&mut out, (port % 256) as u64);
    assert(out@ =~= netaddr(*addr, port));
    out
}

/// Addresses, one behind the other.
pub open spec fn addrs_bytes(locs: Seq<WorkerAddress>, port: u16) -> Seq<u8>
    decreases locs.len(),
{
    if locs.len() == 0 {
        Seq::empty()
    } else {
        addrs_bytes(locs.drop_last(), port) + opaque(seq![116u8, 99u8, 112u8]) + opaque(
            netaddr(locs.last(), port),
        )
    }
}

/// The numbers up to `n`, one behind the other.
pub open spec fn indices_bytes(n: nat) -> Seq<u8>
    decreases n,
{
    if n == 0 {
        Seq::empty()
    } else {
        indices_bytes((n - 1) as nat) + be32((n - 1) as u32)
    }
}

/// The addresses of the servers of each block.
pub open spec fn servers_bytes(blocks: Seq<LocatedBlock>, port: u16) -> Seq<u8>
    decreases blocks.len(),
{
    if blocks.len() == 0 {
        Seq::empty()
    } else {
        servers_bytes(blocks.drop_last(), port) + be32(blocks.last().locs@.len() as u32)
            + addrs_bytes(blocks.last().locs@, port)
    }
}

/// What a client is told of the servers of a file: which of them each stripe is on, and their
/// addresses.
pub open spec fn device_addr_bytes(blocks: FileBlocks, port: u16) -> Seq<u8> {
    let b = blocks.block_locs@;
    be32(b.len() as u32) + indices_bytes(b.len()) + be32(b.len() as u32) + servers_bytes(b, port)
}

/// Whether an address can be sent.
pub open spec fn address_fits(addr: WorkerAddress, port: u16) -> bool {
    netaddr(addr, port).len() < u32::MAX
}

/// Whether all addresses can be sent.
pub open spec fn addresses_fit(blocks: FileBlocks, port: u16) -> bool {
    forall|i: int, j: int|
        0 <= i < blocks.block_locs@.len() && 0 <= j < blocks.block_locs@[i].locs@.len()
            ==> #[trigger] address_fits(blocks.block_locs@[i].locs@[j], port)
}

/// Writes the addresses of the servers of a block.
fn put_addrs(body: &mut Vec<u8>, locs: &Vec<WorkerAddress>, port: u16) -> (r: Result<(), XdrError>)
    ensures
        r is Ok <==> forall|j: int|
            0 <= j < locs@.len() ==> address_fits(#[trigger] locs@[j], port),
        r is Ok ==> final(body)@ == old(body)@ + addrs_bytes(locs@, port),
        r is Err ==> r->Err_0 == XdrError::InvalidData,
{
    let ghost head = body@;
    assert(locs@.take(0) =~= Seq::empty());
    assert(head =~= head + addrs_bytes(locs@.take(0), port));
    let tcp: [u8; 3] = [116, 99, 112];
    assert(tcp@ =~= seq![116u8, 99u8, 112u8]);
    let mut i: usize = 0;
    while i < locs.len()
        invariant
            i <= locs@.len(),
            tcp@ == seq![116u8, 99u8, 112u8],
            body@ == head + addrs_bytes(locs@.take(i as int), port),
            forall|j: int| 0 <= j < i ==> address_fits(#[trigger] locs@[j], port),
        decreases locs@.len() - i,
    {
        put_opaque(body, vstd::array::array_as_slice(&tcp));
        let addr = encode_netaddr(&locs[i], port);
        if addr.len() >= u32::MAX as usize {
            assert(!address_fits(locs@[i as int], port));
            return Err(XdrError::InvalidData);
        }
        put_opaque(body, addr.as_slice());
        i += 1;
        assert(locs@.take(i as int).drop_last() =~= locs@.take(i - 1));
        assert(body@ =~= head + addrs_bytes(locs@.take(i as int), port));
    }
    assert(locs@.take(i as int) =~= locs@);
    Ok(())
}

/// Writes what a client is told of the servers of a file.
pub fn encode_device_addr(blocks: &FileBlocks, port: u16) -> (r: Result<Vec<u8>, XdrError>)
    ensures
        if addresses_fit(*blocks, port) {
            r is Ok && r->Ok_0@ == device_addr_bytes(*blocks, port)
        } else {
            r is Err && r->Err_0 == XdrError::InvalidData
        },
{
    let b = &blocks.block_locs;
    let mut body: Vec<u8> = Vec::new();
    put_u32(&mut body, #[verifier::truncate] (b.len() as u32));
    let ghost head = body@;
    assert(head =~= head + indices_bytes(0));
    let mut i: usize = 0;
    while i < b.len()
        invariant
            i <= b@.len(),
            body@ == head + indices_bytes(i as nat),
        decreases b@.len() - i,
    {
        put_u32(&mut body, #[verifier::truncate] (i as u32));
        i += 1;
        assert(body@ =~= head + indices_bytes(i as nat));
    }
    put_u32(&mut body, #[verifier::truncate] (b.len() as u32));
    let ghost head2 = body@;
    assert(b@.take(0) =~= Seq::empty());
    assert(head2 =~= head2 + servers_bytes(b@.take(0), port));
    i = 0;
    while i < b.len()
        invariant
            i <= b@.len(),
            *b == blocks.block_locs,
            body@ == head2 + servers_bytes(b@.take(i as int), port),
            forall|k: int, j: int|
                0 <= k < i && 0 <= j < b@[k].locs@.len() ==> #[trigger] address_fits(
                    b@[k].locs@[j],
                    port,
                ),
        decreases b@.len() - i,
    {
        put_u32(&mut body, #[verifier::truncate] (b[i].locs.len() as u32));
        let ghost locs = b@[i as int].locs@;
        if let Err(e) = put_addrs(&mut body, &b[i].locs, port) {
            proof {
                let j = choose|j: int|
                    0 <= j < locs.len() && !address_fits(#[trigger] locs[j], port);
                assert(!address_fits(blocks.block_locs@[i as int].locs@[j], port));
            }
            return Err(e);
        }
        assert forall|j: int| 0 <= j < locs.len() implies #[trigger] address_fits(
            b@[i as int].locs@[j],
            port,
        ) by {
            assert(address_fits(locs[j], port));
        }
        i += 1;
        assert(b@.take(i as int).drop_last() =~= b@.take(i - 1));
        assert(body@ =~= head2 + servers_bytes(b@.take(i as int), port));
    }
    assert(b@.take(i as int) =~= b@);
    assert(body@ =~= device_addr_bytes(*blocks, port));
    Ok(body)
}

} // verus!
