//! What stands in handles of blocks, layouts and addresses.

use crate::bytes::{
    be32, be32_at, be32_round_trip, be64, be64_at, be64_round_trip, le32, le32_at, le32_round_trip,
    le64, le64_at, le64_round_trip, opaque, zeros,
};
use crate::laws_data::word_at;
use crate::pnfs::{
    addrs_bytes, block_body, block_handle, block_of, device_addr_bytes, device_id,
    file_layout_bytes, handles_bytes, hmac_sha256, indices_bytes, layout_other,
    layout_segment_bytes, netaddr, servers_bytes, verified_block_of, ExtendedBlock, FileBlocks,
    LocatedBlock, PnfsBlockHandle, PnfsDataServer, StorageTypes, WorkerAddress,
};
use crate::types::{FileAttrs, Fileid4, Nfs4FileHandle, Nfs4FileType, Nfstime4};
use vstd::prelude::*;

verus! {

proof fn le_word(a: Seq<u8>, x: u32, t: Seq<u8>)
    ensures
        le32_at((a + le32(x) + t).skip(a.len() as int)) == x,
        le32(x).len() == 4,
{
    assert((a + le32(x) + t).skip(a.len() as int) =~= le32(x) + t);
    le32_round_trip(x, t, t);
}

proof fn le_long(a: Seq<u8>, x: u64, t: Seq<u8>)
    ensures
        le64_at((a + le64(x) + t).skip(a.len() as int)) == x,
        le64(x).len() == 8,
{
    assert((a + le64(x) + t).skip(a.len() as int) =~= le64(x) + t);
    le64_round_trip(x, t, t);
}

/// The handle of a block starts with a mark of its kind and tells, the least byte of each number
/// first, who keeps it, which block it is, how long it is and on what it is kept. Behind that stand
/// the first 16 bytes of what the key of the server makes of these.
pub proof fn law_block_handle_tells_its_block(
    worker: u32,
    block: ExtendedBlock,
    verifier: Seq<u8>,
)
    ensures
        ({
            let fh = block_handle(worker, block, verifier);
            &&& fh.len() >= 28
            &&& le32_at(fh) == 0x5044_5331
            &&& le32_at(fh.skip(4)) == worker
            &&& le64_at(fh.skip(8)) == block.id as u64
            &&& le64_at(fh.skip(16)) == block.len as u64
            &&& le32_at(fh.skip(24)) == block.storage_type
            &&& fh.skip(28) == hmac_sha256(verifier, fh.take(28)).take(16)
        }),
{
    let t = hmac_sha256(verifier, block_body(worker, block)).take(16);
    let fh = block_handle(worker, block, verifier);
    let none = Seq::<u8>::empty();
    let (a, b) = (le32(0x5044_5331), le32(worker));
    let (c, d) = (le64(block.id as u64), le64(block.len as u64));
    let e = le32(block.storage_type);
    le_word(none, 0x5044_5331, b + c + d + e + t);
    assert(none + a + (b + c + d + e + t) =~= fh);
    assert(fh.skip(0) =~= fh);
    le_word(a, worker, c + d + e + t);
    assert(a + b + (c + d + e + t) =~= fh);
    le_long(a + b, block.id as u64, d + e + t);
    assert((a + b) + c + (d + e + t) =~= fh);
    le_long(a + b + c, block.len as u64, e + t);
    assert((a + b + c) + d + (e + t) =~= fh);
    le_word(a + b + c + d, block.storage_type, t);
    assert((a + b + c + d) + e + t =~= fh);
    assert(fh.take(28) =~= block_body(worker, block));
    assert(fh.skip(28) =~= t);
}

/// A handle is that of a block where it is 44 bytes long and has the mark of its kind, and then
/// tells its block. What it is kept on counts as a disk where it is none that is known.
pub proof fn law_handle_of_a_block_is_read_by_its_parts(fh: Seq<u8>, types: StorageTypes)
    ensures
        block_of(fh, types) is Some <==> fh.len() == 44 && le32_at(fh) == 0x5044_5331,
        block_of(fh, types) matches Some(h) ==> {
            &&& h.worker_id == le32_at(fh.skip(4))
            &&& h.block.id == le64_at(fh.skip(8)) as i64
            &&& h.block.len == le64_at(fh.skip(16)) as i64
            &&& types.known@.contains(le32_at(fh.skip(24))) ==> h.block.storage_type == le32_at(
                fh.skip(24),
            )
            &&& !types.known@.contains(le32_at(fh.skip(24))) ==> h.block.storage_type == types.disk
        },
{
}

/// A handle of a block is taken only where it was made with the key of the server: where what
/// stands behind it is what the key makes of it.
pub proof fn law_handle_of_a_block_needs_its_key(
    fh: Seq<u8>,
    verifier: Seq<u8>,
    types: StorageTypes,
)
    ensures
        verified_block_of(fh, verifier, types) is Some <==> fh.len() == 44 && le32_at(fh)
            == 0x5044_5331 && fh.skip(28) == hmac_sha256(verifier, fh.take(28)).take(16),
        verified_block_of(fh, verifier, types) is Some ==> verified_block_of(fh, verifier, types)
            == block_of(fh, types),
{
}

/// The id of the device of a file starts with a mark and holds the number of the file.
pub proof fn law_device_is_that_of_its_file(fileid: Fileid4)
    ensures
        device_id(fileid).len() == 16,
        le32_at(device_id(fileid)) == 0x5050_4653,
        forall|i: int| 4 <= i < 8 ==> #[trigger] device_id(fileid)[i] == 0,
        le64_at(device_id(fileid).skip(8)) == fileid,
{
    let none = Seq::<u8>::empty();
    let (a, z, f) = (le32(0x5050_4653), zeros(4), le64(fileid));
    let s = device_id(fileid);
    le_word(none, 0x5050_4653, z + f);
    assert(none + a + (z + f) =~= s);
    assert(s.skip(0) =~= s);
    le_long(a + z, fileid, none);
    assert((a + z) + f + none =~= s);
    assert((a + z).len() == 8);
}

/// The id of a layout starts with a mark and holds when the server started and how many were handed
/// out before.
pub proof fn law_layout_id_holds_start_and_count(boot: u64, n: u32)
    ensures
        layout_other(boot, n).len() == 12,
        le32_at(layout_other(boot, n)) == 0x504E_4653,
        le32_at(layout_other(boot, n).skip(4)) == boot as u32,
        le32_at(layout_other(boot, n).skip(8)) == n,
{
    let none = Seq::<u8>::empty();
    let (a, b, c) = (le32(0x504E_4653), le32(boot as u32), le32(n));
    let s = layout_other(boot, n);
    le_word(none, 0x504E_4653, b + c);
    assert(none + a + (b + c) =~= s);
    assert(s.skip(0) =~= s);
    le_word(a, boot as u32, c);
    assert(a + b + c =~= s);
    le_word(a + b, n, none);
    assert((a + b) + c + none =~= s);
}

/// A block is told as a file that anyone may read, of the length and the number of the block, that
/// takes up whole sectors.
pub proof fn law_block_is_told_as_a_file(
    handle: PnfsBlockHandle,
    now: Nfstime4,
    r: FileAttrs,
)
    requires
        PnfsDataServer::are_attrs(handle, now, r),
        handle.block.len >= 0,
    ensures
        r.file_type == Nfs4FileType::Regular,
        r.mode == 292,
        r.nlink == 1,
        r.size == handle.block.len,
        r.used % 512 == 0,
        handle.block.len <= r.used < handle.block.len + 512,
        r.fileid == handle.block.id as u64,
        r.mtime == now,
{
}

/// A layout tells the part of the file that it is for and what may be done with it, that it is of
/// the kind of files, and then the device, how the file is cut and the handles.
pub proof fn law_layout_tells_its_part(
    offset: u64,
    length: u64,
    iomode: u32,
    deviceid: Seq<u8>,
    stripe_size: u32,
    fhs: Seq<Nfs4FileHandle>,
)
    requires
        deviceid.len() == 16,
        file_layout_bytes(deviceid, stripe_size, fhs).len() <= u32::MAX,
    ensures
        ({
            let s = layout_segment_bytes(offset, length, iomode, deviceid, stripe_size, fhs);
            let body = file_layout_bytes(deviceid, stripe_size, fhs);
            &&& be64_at(s) == offset
            &&& be64_at(s.skip(8)) == length
            &&& be32_at(s.skip(16)) == iomode
            &&& be32_at(s.skip(20)) == 1
            &&& be32_at(s.skip(24)) == body.len()
            &&& s.skip(24) == opaque(body)
        }),
{
    let body = file_layout_bytes(deviceid, stripe_size, fhs);
    let s = layout_segment_bytes(offset, length, iomode, deviceid, stripe_size, fhs);
    let (a, b) = (be64(offset), be64(length));
    let (c, d) = (be32(iomode), be32(1));
    let o = opaque(body);
    be64_round_trip(offset, b + c + d + o);
    assert(s =~= a + (b + c + d + o));
    be64_round_trip(length, c + d + o);
    assert(s.skip(8) =~= b + (c + d + o));
    word_at(a + b, iomode, d + o);
    assert((a + b) + c + (d + o) =~= s);
    word_at(a + b + c, 1, o);
    assert((a + b + c) + d + o =~= s);
    be32_round_trip(body.len() as u32, o.skip(4));
    assert(o =~= be32(body.len() as u32) + o.skip(4));
}

/// The body of a layout is the device, the size of a cut with a mark that the handles are dense, the
/// first device and the start of the file, and the handles in their order.
pub proof fn law_layout_body_tells_device_and_handles(
    deviceid: Seq<u8>,
    stripe_size: u32,
    fhs: Seq<Nfs4FileHandle>,
)
    requires
        deviceid.len() == 16,
        fhs.len() <= u32::MAX,
    ensures
        ({
            let s = file_layout_bytes(deviceid, stripe_size, fhs);
            &&& s.take(16) == deviceid
            &&& be32_at(s.skip(16)) % 64 == 1
            &&& be32_at(s.skip(16)) / 64 == stripe_size / 64
            &&& be32_at(s.skip(20)) == 0
            &&& be64_at(s.skip(24)) == 0
            &&& be32_at(s.skip(32)) == fhs.len()
            &&& s.skip(36) == handles_bytes(fhs)
        }),
{
    let util = (stripe_size & 0xFFFF_FFC0) | 1;
    assert(util % 64 == 1 && util / 64 == stripe_size / 64) by (bit_vector)
        requires
            util == (stripe_size & 0xFFFF_FFC0) | 1,
    ;
    let s = file_layout_bytes(deviceid, stripe_size, fhs);
    let (u, z, l) = (be32(util), be32(0), be64(0));
    let (c, h) = (be32(fhs.len() as u32), handles_bytes(fhs));
    assert(u.len() == 4 && z.len() == 4 && l.len() == 8 && c.len() == 4);
    word_at(deviceid, util, z + l + c + h);
    assert(deviceid + u + (z + l + c + h) =~= s);
    word_at(deviceid + u, 0, l + c + h);
    assert((deviceid + u) + z + (l + c + h) =~= s);
    be64_round_trip(0, c + h);
    assert(s.skip(24) =~= l + (c + h));
    word_at(deviceid + u + z + l, fhs.len() as u32, h);
    assert((deviceid + u + z + l) + c + h =~= s);
    assert(s.take(16) =~= deviceid);
}

/// Handles stand one behind the other, each with its length in front.
pub proof fn law_handles_stand_in_order(fhs: Seq<Nfs4FileHandle>, next: Nfs4FileHandle)
    ensures
        handles_bytes(fhs.push(next)) == handles_bytes(fhs) + opaque(next@),
        handles_bytes(Seq::empty()).len() == 0,
{
    assert(fhs.push(next).drop_last() =~= fhs);
}

/// Where a worker is reached is its address and its port, as two numbers below 256, with dots
/// between them.
pub proof fn law_address_ends_with_its_port(addr: WorkerAddress, port: u16)
    ensures
        ({
            let host = crate::text::text_bytes(addr.ip_addr@);
            let (hi, lo) = (
                crate::text::decimal((port / 256) as nat),
                crate::text::decimal((port % 256) as nat),
            );
            let s = netaddr(addr, port);
            let n = host.len() as int;
            let m = n + 1 + hi.len() as int;
            &&& s.take(n) == host
            &&& s[n] == 46
            &&& s.subrange(n + 1, m) == hi
            &&& s[m] == 46
            &&& s.skip(m + 1) == lo
        }),
{
    let host = crate::text::text_bytes(addr.ip_addr@);
    let hi = crate::text::decimal((port / 256) as nat);
    let lo = crate::text::decimal((port % 256) as nat);
    let s = netaddr(addr, port);
    let n = host.len() as int;
    let m = n + 1 + hi.len() as int;
    assert(s.take(n) =~= host);
    assert(s.subrange(n + 1, m) =~= hi);
    assert(s.skip(m + 1) =~= lo);
}

/// A device tells which of its servers keeps each part, in order, and then where each server is
/// reached, by as many addresses as it has.
pub proof fn law_device_tells_where_its_parts_are(
    blocks: Seq<LocatedBlock>,
    next: LocatedBlock,
    port: u16,
    n: nat,
    locs: Seq<WorkerAddress>,
    worker: WorkerAddress,
)
    requires
        n <= u32::MAX,
    ensures
        indices_bytes(0).len() == 0,
        n < u32::MAX ==> indices_bytes(n + 1) == indices_bytes(n) + be32(n as u32),
        servers_bytes(Seq::empty(), port).len() == 0,
        servers_bytes(blocks.push(next), port) == servers_bytes(blocks, port) + be32(
            next.locs@.len() as u32,
        ) + addrs_bytes(next.locs@, port),
        addrs_bytes(Seq::empty(), port).len() == 0,
        addrs_bytes(locs.push(worker), port) == addrs_bytes(locs, port) + opaque(
            seq![116u8, 99u8, 112u8],
        ) + opaque(netaddr(worker, port)),
{
    assert(blocks.push(next).drop_last() =~= blocks);
    assert(locs.push(worker).drop_last() =~= locs);
}

/// A device has as many parts as servers, and says so in front of each.
pub proof fn law_device_counts_its_parts(blocks: FileBlocks, port: u16)
    requires
        blocks.block_locs@.len() <= u32::MAX,
    ensures
        ({
            let s = device_addr_bytes(blocks, port);
            let n = blocks.block_locs@.len();
            let m = 4 + indices_bytes(n).len() as int;
            &&& be32_at(s) == n
            &&& s.subrange(4, m) == indices_bytes(n)
            &&& be32_at(s.skip(m)) == n
            &&& s.skip(m + 4) == servers_bytes(blocks.block_locs@, port)
        }),
{
    let b = blocks.block_locs@;
    let s = device_addr_bytes(blocks, port);
    let (c, i, v) = (be32(b.len() as u32), indices_bytes(b.len()), servers_bytes(b, port));
    be32_round_trip(b.len() as u32, i + c + v);
    assert(s =~= c + (i + c + v));
    word_at(c + i, b.len() as u32, v);
    assert((c + i) + c + v =~= s);
    assert(s.subrange(4, 4 + i.len() as int) =~= i);
}

} // verus!
