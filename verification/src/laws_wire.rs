//! How single values stand on the wire.

use crate::args::{items_len, List};
use crate::bytes::{
    be32, be32_at, be32_round_trip, be64, be64_at, be64_round_trip, opaque, XdrError,
};
use crate::types::{Nfs4FileHandle, Nfstime4, Stateid4};
use crate::xdr::{be32s, be32s_index, be32s_len, opaque_at, Decode, XDR};
use vstd::prelude::*;

verus! {

/// Numbers and marks are read from four or eight bytes, the greatest first. A mark is set where it
/// is not 0.
pub proof fn law_numbers_are_read_from_their_bytes(
    s: Seq<u8>,
    a: u32,
    b: u64,
    c: i32,
    d: i64,
    e: bool,
)
    requires
        s.len() >= 8,
    ensures
        u32::decoded_len(s) == Ok::<nat, XdrError>(4),
        u64::decoded_len(s) == Ok::<nat, XdrError>(8),
        i32::decoded_len(s) == Ok::<nat, XdrError>(4),
        i64::decoded_len(s) == Ok::<nat, XdrError>(8),
        bool::decoded_len(s) == Ok::<nat, XdrError>(4),
        a.decodes_to(s) <==> a == s[0] * 0x100_0000 + s[1] * 0x1_0000 + s[2] * 0x100 + s[3],
        b.decodes_to(s) ==> b / 0x100_0000_0000_0000 == s[0] && b % 0x100 == s[7],
        0 <= c && c.decodes_to(s) ==> c == be32_at(s),
        0 <= d && d.decodes_to(s) ==> d == be64_at(s),
        c < 0 && c.decodes_to(s) ==> c == be32_at(s) - 0x1_0000_0000,
        d < 0 && d.decodes_to(s) ==> d == be64_at(s) - 0x1_0000_0000_0000_0000,
        e.decodes_to(s) <==> e == (be32_at(s) != 0),
{
    let (x, y) = (be32_at(s), be64_at(s));
    assert((x as i32) >= 0 ==> (x as i32) == x) by (bit_vector);
    assert((x as i32) < 0 ==> (x as i32) == x - 0x1_0000_0000) by (bit_vector);
    assert((y as i64) >= 0 ==> (y as i64) == y) by (bit_vector);
    assert((y as i64) < 0 ==> (y as i64) == y - 0x1_0000_0000_0000_0000) by (bit_vector);
}

/// Numbers and marks are written as they are read.
pub proof fn law_numbers_are_written_to_their_bytes(a: u32, b: u64, e: bool)
    ensures
        a.encoding().len() == 4,
        be32_at(a.encoding()) == a,
        b.encoding().len() == 8,
        be64_at(b.encoding()) == b,
        e.encoding().len() == 4,
        be32_at(e.encoding()) == if e {
            1u32
        } else {
            0u32
        },
{
    let none = Seq::<u8>::empty();
    be32_round_trip(a, none);
    assert(be32(a) + none =~= be32(a));
    be64_round_trip(b, none);
    assert(be64(b) + none =~= be64(b));
    be32_round_trip(0, none);
    assert(be32(0) + none =~= be32(0));
    be32_round_trip(1, none);
    assert(be32(1) + none =~= be32(1));
}

/// A list of numbers is how many there are and then each of them, in order, no more than a
/// mebi of them.
pub proof fn law_list_of_numbers_stands_in_order(v: Vec<u32>, s: Seq<u8>, i: int)
    requires
        Vec::<u32>::decoded_len(s) is Ok,
        v.decodes_to(s),
        0 <= i < v@.len(),
    ensures
        v@.len() == be32_at(s),
        v@.len() <= 1_048_576,
        v@[i] == be32_at(s.skip(4 + 4 * i)),
        Vec::<u32>::decoded_len(s)->Ok_0 == 4 + 4 * v@.len(),
{
}

/// A list of numbers is written as it is read.
pub proof fn law_list_of_numbers_is_written_in_order(v: Vec<u32>, i: int)
    requires
        v@.len() <= u32::MAX,
        0 <= i < v@.len(),
    ensures
        be32_at(v.encoding()) == v@.len(),
        be32_at(v.encoding().skip(4 + 4 * i)) == v@[i],
        v.encoding().len() == 4 + 4 * v@.len(),
{
    let none = Seq::<u8>::empty();
    let b = be32s(v@);
    be32_round_trip(v@.len() as u32, b);
    be32s_len(v@);
    be32s_index(v@, i, none);
    assert(b + none =~= b);
    assert(v.encoding().skip(4 + 4 * i) =~= b.skip(4 * i));
}

/// A list whose items are read one by one is how many there are and then each of them, in order.
pub proof fn law_list_stands_in_order(v: List<u32>, s: Seq<u8>, i: int)
    requires
        List::<u32>::decoded_len(s) is Ok,
        v.decodes_to(s),
        0 <= i < v.items@.len(),
    ensures
        v.items@.len() == be32_at(s),
        v.items@[i] == be32_at(s.skip(4 + 4 * i)),
{
    words_end(s, be32_at(s) as nat, i as nat);
}

proof fn words_end(s: Seq<u8>, count: nat, i: nat)
    requires
        i <= count,
        items_len::<u32>(s, 4, count) is Ok,
    ensures
        items_len::<u32>(s, 4, i) == Ok::<nat, XdrError>(4 + 4 * i),
    decreases count, i,
{
    broadcast use {crate::bytes::skip_skip, crate::bytes::skip_nothing};

    if i == 0 {
    } else if i < count {
        words_end(s, (count - 1) as nat, i);
    } else {
        words_end(s, (count - 1) as nat, (count - 1) as nat);
    }
}

/// A stateid is its number and twelve bytes; a time is its seconds and the parts of a second; a
/// handle is its length and its bytes, no more than 128 of them.
pub proof fn law_parts_of_values_stand_in_order(
    sid: Stateid4,
    time: Nfstime4,
    fh: Nfs4FileHandle,
    s: Seq<u8>,
)
    requires
        s.len() >= 16,
    ensures
        Stateid4::decoded_len(s) == Ok::<nat, XdrError>(16),
        sid.decodes_to(s) ==> sid.seqid == be32_at(s) && sid.other@ == s.subrange(4, 16),
        sid.encoding().len() == 16,
        be32_at(sid.encoding()) == sid.seqid,
        sid.encoding().skip(4) == sid.other@,
        Nfstime4::decoded_len(s) == Ok::<nat, XdrError>(12),
        time.decodes_to(s) ==> time.seconds == be64_at(s) as i64 && time.nseconds == be32_at(
            s.skip(8),
        ),
        be64_at(time.encoding()) == time.seconds as u64,
        be32_at(time.encoding().skip(8)) == time.nseconds,
        time.encoding().len() == 12,
        be32_at(s) > 128 ==> Nfs4FileHandle::decoded_len(s) is Err,
        Nfs4FileHandle::decoded_len(s) is Ok && fh.decodes_to(s) ==> fh@ == opaque_at(s)
            && fh@.len() <= 128,
        fh.encoding() == opaque(fh@),
{
    broadcast use {crate::bytes::skip_skip, crate::bytes::skip_nothing};

    assert(s.skip(4).take(12) =~= s.subrange(4, 16));
    let none = Seq::<u8>::empty();
    be32_round_trip(sid.seqid, sid.other@);
    assert(sid.encoding() =~= be32(sid.seqid) + sid.other@);
    assert(sid.encoding().skip(4) =~= sid.other@);
    be64_round_trip(time.seconds as u64, be32(time.nseconds));
    assert(time.encoding() =~= be64(time.seconds as u64) + be32(time.nseconds));
    be32_round_trip(time.nseconds, none);
    assert(time.encoding().skip(8) =~= be32(time.nseconds) + none);
}

/// Bytes of any number are read up to 16 mebibytes.
pub proof fn law_bytes_are_read_up_to_their_most(v: Vec<u8>, s: Seq<u8>)
    ensures
        s.len() >= 4 && be32_at(s) > 16_777_216 ==> Vec::<u8>::decoded_len(s) is Err,
        Vec::<u8>::decoded_len(s) is Ok && v.decodes_to(s) ==> v@.len() == be32_at(s)
            && v@ == s.subrange(4, 4 + be32_at(s) as int),
{
}

} // verus!
