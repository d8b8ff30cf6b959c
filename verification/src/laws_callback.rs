//! What calling clients back comes to, and what time does to what they hold.

use crate::backchannel::{
    callback_bytes, cb_call_bytes, cb_recall_bytes, cb_sequence_bytes, cb_tag, first_up, free_slot,
    next_sequence, BackchannelConn, BackchannelManager, BackchannelState, CallbackOp, Outbound,
};
use crate::bytes::{be32, be32_at, key12, opaque};
use crate::delegation::DelegationManager;
use crate::error::{Nfs4Result, Nfs4Status};
use crate::grace::GracePeriodManager;
use crate::laws_data::word_at;
use crate::lease::{LeaseManager, LeaseState};
use crate::time::Duration;
use crate::types::{Clientid4, Fileid4, Nfs4FileHandle, Stateid4};
use crate::xdr::XDR;
use vstd::prelude::*;

verus! {

// ---------------------------------------------------------------------------
// Calling back
// ---------------------------------------------------------------------------

/// A call back takes the first slot that is not in use.
pub proof fn law_first_slot_that_is_free_is_taken(
    slots: Seq<crate::backchannel::BackchannelSlot>,
    i: int,
)
    requires
        0 <= i,
    ensures
        free_slot(slots, i) matches Some(j) ==> {
            &&& i <= j < slots.len()
            &&& !slots[j].in_use
            &&& forall|n: int| i <= n < j ==> #[trigger] slots[n].in_use
        },
        free_slot(slots, i) is None ==> forall|n: int|
            i <= n < slots.len() ==> #[trigger] slots[n].in_use,
    decreases slots.len() - i,
{
    if i < slots.len() {
        law_first_slot_that_is_free_is_taken(slots, i + 1);
    }
}

/// The number of a slot grows by one with each call, and starts with 1 again behind the greatest.
pub proof fn law_slot_counts_its_calls(n: u32)
    ensures
        n < 0xffff_ffff ==> next_sequence(n) == n + 1,
        n == 0xffff_ffff ==> next_sequence(n) == 1,
{
}

/// A client is called back through the first of its sessions that is up.
pub proof fn law_first_session_that_is_up_is_called_through(
    list: Seq<u128>,
    channels: Map<u128, BackchannelConn>,
    i: int,
)
    requires
        0 <= i,
    ensures
        first_up(list, channels, i) matches Some(k) ==> {
            &&& channels.contains_key(k)
            &&& channels[k].state == BackchannelState::Up
            &&& exists|j: int|
                #![trigger list[j]]
                i <= j < list.len() && list[j] == k && forall|n: int|
                    i <= n < j ==> !(channels.contains_key(#[trigger] list[n])
                        && channels[list[n]].state == BackchannelState::Up)
        },
        first_up(list, channels, i) is None ==> forall|n: int|
            i <= n < list.len() ==> !(channels.contains_key(#[trigger] list[n])
                && channels[list[n]].state == BackchannelState::Up),
    decreases list.len() - i,
{
    if i < list.len() {
        if channels.contains_key(list[i]) && channels[list[i]].state == BackchannelState::Up {
            assert(list[i] == first_up(list, channels, i)->Some_0);
        } else {
            law_first_session_that_is_up_is_called_through(list, channels, i + 1);
            if first_up(list, channels, i) is Some {
                let k = first_up(list, channels, i)->Some_0;
                let j = choose|j: int|
                    #![trigger list[j]]
                    i + 1 <= j < list.len() && list[j] == k && forall|n: int|
                        i + 1 <= n < j ==> !(channels.contains_key(#[trigger] list[n])
                            && channels[list[n]].state == BackchannelState::Up);
                assert(i <= j < list.len() && list[j] == k);
            }
        }
    }
}

/// What bars a call back: that the client has no session, that none of its sessions is up, and
/// that each slot of the session is in use.
pub proof fn law_call_back_is_barred_for_its_reason(
    m: BackchannelManager,
    client_id: Clientid4,
)
    ensures
        !m.client_sessions.lists@.contains_key(client_id) ==> m.obstacle(client_id)
            == Some(Nfs4Status::BadSession),
        m.client_sessions.lists@.contains_key(client_id) ==> ({
            let up = |k: u128|
                m.channels@.contains_key(k) && m.channels@[k].state == BackchannelState::Up;
            let list = m.client_sessions.of(client_id);
            &&& m.obstacle(client_id) == Some(Nfs4Status::CbPathDown) <==> forall|n: int|
                0 <= n < list.len() ==> !up(#[trigger] list[n])
            &&& m.obstacle(client_id) == Some(Nfs4Status::BackChanBusy) ==> {
                let c = m.channels@[m.route(client_id)->Some_0];
                c.wire is Some && forall|n: int|
                    0 <= n < c.slots@.len() ==> #[trigger] c.slots@[n].in_use
            }
        }),
{
    if m.client_sessions.lists@.contains_key(client_id) {
        let list = m.client_sessions.of(client_id);
        law_first_session_that_is_up_is_called_through(list, m.channels@, 0);
        if let Some(k) = m.route(client_id) {
            law_first_slot_that_is_free_is_taken(m.channels@[k].slots@, 0);
        }
    }
}

/// Whether a message calls a client back under the given number to give back a delegation: a call
/// of the program that the client has for it, with what the client asked to be shown, of two
/// operations, the first of which names the session and its slot.
pub open spec fn calls_back(
    b: Seq<u8>,
    xid: u32,
    program: u32,
    shown: Seq<u8>,
    session: Seq<u8>,
    sequence: u32,
    slot: u32,
    highest: u32,
    stateid: Stateid4,
    truncate: bool,
    fh: Seq<u8>,
) -> bool {
    let n = 24 + shown.len() as int;
    let m = n + 36;
    &&& be32_at(b) == xid
    &&& be32_at(b.skip(4)) == 0
    &&& be32_at(b.skip(8)) == 2
    &&& be32_at(b.skip(12)) == program
    &&& be32_at(b.skip(16)) == 1
    &&& be32_at(b.skip(20)) == 1
    &&& b.subrange(24, n) == shown
    &&& be32_at(b.skip(n)) == 0
    &&& be32_at(b.skip(n + 4)) == 0
    &&& be32_at(b.skip(n + 8)) == 10
    &&& be32_at(b.skip(n + 24)) == 1
    &&& be32_at(b.skip(n + 28)) == 0
    &&& be32_at(b.skip(n + 32)) == 2
    &&& be32_at(b.skip(m)) == 11
    &&& b.subrange(m + 4, m + 20) == session
    &&& be32_at(b.skip(m + 20)) == sequence
    &&& be32_at(b.skip(m + 24)) == slot
    &&& be32_at(b.skip(m + 28)) == highest
    &&& be32_at(b.skip(m + 32)) == 0
    &&& be32_at(b.skip(m + 36)) == 0
    &&& be32_at(b.skip(m + 40)) == 4
    &&& be32_at(b.skip(m + 44)) == stateid.seqid
    &&& b.subrange(m + 48, m + 60) == stateid.other@
    &&& be32_at(b.skip(m + 60)) == if truncate {
        1u32
    } else {
        0u32
    }
    &&& b.skip(m + 64) == opaque(fh)
}

proof fn words(h: Seq<u8>, a: u32, b: u32, c: u32, t: Seq<u8>)
    ensures
        ({
            let s = h + (be32(a) + be32(b) + be32(c) + t);
            let n = h.len() as int;
            &&& be32_at(s.skip(n)) == a
            &&& be32_at(s.skip(n + 4)) == b
            &&& be32_at(s.skip(n + 8)) == c
            &&& s.skip(n + 12) == t
            &&& s.len() == n + 12 + t.len()
        }),
{
    let (x, y, z) = (be32(a), be32(b), be32(c));
    let s = h + (x + y + z + t);
    assert(x.len() == 4 && y.len() == 4 && z.len() == 4);
    word_at(h, a, y + z + t);
    assert(h + x + (y + z + t) =~= s);
    word_at(h + x, b, z + t);
    assert((h + x) + y + (z + t) =~= s);
    word_at(h + x + y, c, t);
    assert((h + x + y) + z + t =~= s);
}

proof fn further(s: Seq<u8>, n: int, t: Seq<u8>, k: int)
    requires
        0 <= n,
        n + t.len() == s.len(),
        s.skip(n) == t,
        0 <= k <= t.len(),
    ensures
        s.skip(n + k) == t.skip(k),
{
    assert(s.skip(n + k) =~= t.skip(k));
}

proof fn range_further(s: Seq<u8>, n: int, t: Seq<u8>, i: int, j: int)
    requires
        0 <= n,
        n + t.len() == s.len(),
        s.skip(n) == t,
        0 <= i <= j <= t.len(),
    ensures
        s.subrange(n + i, n + j) == t.subrange(i, j),
{
    assert(s.subrange(n + i, n + j) =~= s.skip(n).subrange(i, j));
}

proof fn call_parts(
    a: Seq<u8>,
    b: Seq<u8>,
    c: Seq<u8>,
    d: Seq<u8>,
    e: Seq<u8>,
    f: Seq<u8>,
    g: Seq<u8>,
    h: Seq<u8>,
    i: Seq<u8>,
    t: Seq<u8>,
)
    ensures
        a + b + c + d + e + f + g + h + i + t == a + b + c + (d + e + f + (g + (h + i + t))),
{
    assert(a + b + c + d + e + f + g + h + i + t =~= a + b + c + (d + e + f + (g + (h + i + t))));
}

proof fn behind_call(
    call: Seq<u8>,
    o: Seq<u8>,
    x: Seq<u8>,
    y: Seq<u8>,
    z: Seq<u8>,
    q: Seq<u8>,
    r: Seq<u8>,
)
    ensures
        call + o + x + y + z + q + r == call + (o + (x + y + z + (q + r))),
{
    assert(call + o + x + y + z + q + r =~= call + (o + (x + y + z + (q + r))));
}

proof fn head_found(xid: u32, program: u32, shown: Seq<u8>, t: Seq<u8>)
    ensures
        ({
            let none = opaque(Seq::<u8>::empty());
            let b = be32(xid) + be32(0) + be32(2) + be32(program) + be32(1) + be32(1) + shown
                + be32(0) + none + t;
            let n = 24 + shown.len() as int;
            &&& be32_at(b) == xid
            &&& be32_at(b.skip(4)) == 0
            &&& be32_at(b.skip(8)) == 2
            &&& be32_at(b.skip(12)) == program
            &&& be32_at(b.skip(16)) == 1
            &&& be32_at(b.skip(20)) == 1
            &&& b.subrange(24, n) == shown
            &&& be32_at(b.skip(n)) == 0
            &&& be32_at(b.skip(n + 4)) == 0
            &&& b.skip(n + 8) == t
            &&& b.len() == n + 8 + t.len()
        }),
{
    let none = opaque(Seq::<u8>::empty());
    assert(none =~= be32(0));
    let t3 = be32(0) + none + t;
    let t2 = shown + t3;
    let t1 = be32(program) + be32(1) + be32(1) + t2;
    let b = be32(xid) + be32(0) + be32(2) + t1;
    call_parts(
        be32(xid),
        be32(0),
        be32(2),
        be32(program),
        be32(1),
        be32(1),
        shown,
        be32(0),
        none,
        t,
    );
    let e = Seq::<u8>::empty();
    assert(e + b =~= b);
    words(e, xid, 0, 2, t1);
    assert(b.skip(0) =~= b);
    assert(e + t1 =~= t1);
    words(e, program, 1, 1, t2);
    assert(t1.skip(0) =~= t1);
    further(b, 12, t1, 0);
    further(b, 12, t1, 4);
    further(b, 12, t1, 8);
    further(b, 12, t1, 12);
    assert(b.skip(24) == t2);
    let m = shown.len() as int;
    assert(t2.skip(m) =~= t3);
    further(b, 24, t2, m);
    assert(b.subrange(24, 24 + m) =~= b.skip(24).subrange(0, m));
    assert(t2.subrange(0, m) =~= shown);
    crate::bytes::be32_round_trip(0, none + t);
    assert(t3 =~= be32(0) + (none + t));
    assert(t3.skip(4) =~= none + t);
    crate::bytes::be32_round_trip(0, t);
    assert((none + t).skip(4) =~= t);
    further(b, 24 + m, t3, 4);
    further(b, 24 + m + 4, none + t, 4);
}

proof fn sequence_found(
    session: Seq<u8>,
    sequence: u32,
    slot: u32,
    highest: u32,
    t: Seq<u8>,
)
    requires
        session.len() == 16,
    ensures
        ({
            let b = cb_sequence_bytes(session, slot, sequence, highest) + t;
            &&& be32_at(b) == 11
            &&& b.subrange(4, 20) == session
            &&& be32_at(b.skip(20)) == sequence
            &&& be32_at(b.skip(24)) == slot
            &&& be32_at(b.skip(28)) == highest
            &&& be32_at(b.skip(32)) == 0
            &&& be32_at(b.skip(36)) == 0
            &&& b.skip(40) == t
            &&& b.len() == 40 + t.len()
        }),
{
    let b = cb_sequence_bytes(session, slot, sequence, highest) + t;
    let z = be32(0) + be32(0) + t;
    let w = be32(sequence) + be32(slot) + be32(highest) + z;
    let h = be32(11) + session;
    assert(b =~= h + w);
    assert(h.len() == 20);
    words(h, sequence, slot, highest, z);
    crate::bytes::be32_round_trip(11, session + w);
    assert(b =~= be32(11) + (session + w));
    assert(b.subrange(4, 20) =~= session);
    assert(z =~= be32(0) + (be32(0) + t));
    crate::bytes::be32_round_trip(0, be32(0) + t);
    crate::bytes::be32_round_trip(0, t);
    assert(z.skip(4) =~= be32(0) + t);
    assert(z.skip(8) =~= t);
    further(b, 32, z, 4);
    further(b, 32, z, 8);
}

proof fn recall_found(stateid: Stateid4, truncate: bool, fh: Seq<u8>)
    ensures
        ({
            let b = cb_recall_bytes(stateid, truncate, fh);
            &&& be32_at(b) == 4
            &&& be32_at(b.skip(4)) == stateid.seqid
            &&& b.subrange(8, 20) == stateid.other@
            &&& be32_at(b.skip(20)) == if truncate {
                1u32
            } else {
                0u32
            }
            &&& b.skip(24) == opaque(fh)
            &&& b.len() == 24 + opaque(fh).len()
        }),
{
    let b = cb_recall_bytes(stateid, truncate, fh);
    let o = stateid.other@;
    let w = if truncate {
        1u32
    } else {
        0u32
    };
    let t = be32(w) + opaque(fh);
    assert(stateid.encoding() =~= be32(stateid.seqid) + o);
    assert(b =~= be32(4) + (be32(stateid.seqid) + (o + t)));
    crate::bytes::be32_round_trip(4, be32(stateid.seqid) + (o + t));
    crate::bytes::be32_round_trip(stateid.seqid, o + t);
    assert(b.skip(4) =~= be32(stateid.seqid) + (o + t));
    assert(o.len() == 12);
    assert(b.subrange(8, 20) =~= o);
    assert(b.skip(20) =~= t);
    crate::bytes::be32_round_trip(w, opaque(fh));
    assert(b.skip(24) =~= opaque(fh));
}

proof fn tag_found(v: Seq<u8>)
    ensures
        ({
            let t = opaque(cb_tag()) + (be32(1) + be32(0) + be32(2) + v);
            &&& be32_at(t) == 10
            &&& be32_at(t.skip(16)) == 1
            &&& be32_at(t.skip(20)) == 0
            &&& be32_at(t.skip(24)) == 2
            &&& t.skip(28) == v
            &&& t.len() == 28 + v.len()
        }),
{
    let o = opaque(cb_tag());
    let u = be32(1) + be32(0) + be32(2) + v;
    let fill = cb_tag() + crate::bytes::zeros(2);
    assert(o =~= be32(10) + fill);
    crate::bytes::be32_round_trip(10, fill + u);
    assert(o + u =~= be32(10) + (fill + u));
    assert(o.len() == 16);
    words(o, 1, 0, 2, v);
}

proof fn body_found(
    session: Seq<u8>,
    sequence: u32,
    slot: u32,
    highest: u32,
    stateid: Stateid4,
    truncate: bool,
    fh: Seq<u8>,
)
    requires
        session.len() == 16,
    ensures
        ({
            let v = cb_sequence_bytes(session, slot, sequence, highest) + cb_recall_bytes(
                stateid,
                truncate,
                fh,
            );
            &&& v.len() >= 64
            &&& be32_at(v) == 11
            &&& v.subrange(4, 20) == session
            &&& be32_at(v.skip(20)) == sequence
            &&& be32_at(v.skip(24)) == slot
            &&& be32_at(v.skip(28)) == highest
            &&& be32_at(v.skip(32)) == 0
            &&& be32_at(v.skip(36)) == 0
            &&& be32_at(v.skip(40)) == 4
            &&& be32_at(v.skip(44)) == stateid.seqid
            &&& v.subrange(48, 60) == stateid.other@
            &&& be32_at(v.skip(60)) == if truncate {
                1u32
            } else {
                0u32
            }
            &&& v.skip(64) == opaque(fh)
        }),
{
    let r = cb_recall_bytes(stateid, truncate, fh);
    let v = cb_sequence_bytes(session, slot, sequence, highest) + r;
    sequence_found(session, sequence, slot, highest, r);
    recall_found(stateid, truncate, fh);
    further(v, 40, r, 4);
    further(v, 40, r, 20);
    further(v, 40, r, 24);
    range_further(v, 40, r, 8, 20);
}

/// The parts of a message that calls back, put together.
proof fn parts_call_back(
    b: Seq<u8>,
    n: int,
    t: Seq<u8>,
    v: Seq<u8>,
)
    requires
        0 <= n,
        b.len() == n + 8 + t.len(),
        b.skip(n + 8) == t,
        t.len() == 28 + v.len(),
        t.skip(28) == v,
        v.len() >= 64,
    ensures
        b.skip(n + 24) == t.skip(16),
        b.skip(n + 28) == t.skip(20),
        b.skip(n + 32) == t.skip(24),
        b.skip(n + 36) == v,
        b.subrange(n + 40, n + 56) == v.subrange(4, 20),
        b.skip(n + 56) == v.skip(20),
        b.skip(n + 60) == v.skip(24),
        b.skip(n + 64) == v.skip(28),
        b.skip(n + 68) == v.skip(32),
        b.skip(n + 72) == v.skip(36),
        b.skip(n + 76) == v.skip(40),
        b.skip(n + 80) == v.skip(44),
        b.subrange(n + 84, n + 96) == v.subrange(48, 60),
        b.skip(n + 96) == v.skip(60),
        b.skip(n + 100) == v.skip(64),
{
    further(b, n + 8, t, 16);
    further(b, n + 8, t, 20);
    further(b, n + 8, t, 24);
    further(b, n + 8, t, 28);
    range_further(b, n + 36, v, 4, 20);
    range_further(b, n + 36, v, 48, 60);
    further(b, n + 36, v, 20);
    further(b, n + 36, v, 24);
    further(b, n + 36, v, 28);
    further(b, n + 36, v, 32);
    further(b, n + 36, v, 36);
    further(b, n + 36, v, 40);
    further(b, n + 36, v, 44);
    further(b, n + 36, v, 60);
    further(b, n + 36, v, 64);
}

proof fn message_found(
    conn: BackchannelConn,
    xid: u32,
    slot: u32,
    sequence: u32,
    highest: u32,
    stateid: Stateid4,
    truncate: bool,
    fh: Seq<u8>,
)
    ensures
        calls_back(
            callback_bytes(&conn, xid, slot, sequence, highest, stateid, truncate, fh),
            xid,
            conn.cb_program,
            conn.auth.encoding(),
            conn.session_id@,
            sequence,
            slot,
            highest,
            stateid,
            truncate,
            fh,
        ),
{
    let b = callback_bytes(&conn, xid, slot, sequence, highest, stateid, truncate, fh);
    let shown = conn.auth.encoding();
    let session = conn.session_id@;
    let call = cb_call_bytes(xid, conn.cb_program, conn.auth);
    let q = cb_sequence_bytes(session, slot, sequence, highest);
    let r = cb_recall_bytes(stateid, truncate, fh);
    let o = opaque(cb_tag());
    behind_call(call, o, be32(1), be32(0), be32(2), q, r);
    let v = q + r;
    let t = o + (be32(1) + be32(0) + be32(2) + v);
    let n = 24 + shown.len() as int;
    head_found(xid, conn.cb_program, shown, t);
    tag_found(v);
    assert(session.len() == 16);
    body_found(session, sequence, slot, highest, stateid, truncate, fh);
    parts_call_back(b, n, t, v);
}

/// A client that has to give a delegation back is called through its first session that is up:
/// with the number that comes next, in the first slot that is free and under the number of that
/// slot, and is told the delegation and the file. The slot is in use until the client answers.
pub proof fn law_client_is_called_back_with_what_it_holds(
    before: BackchannelManager,
    after: BackchannelManager,
    client_id: Clientid4,
    stateid: Stateid4,
    truncate: bool,
    fh: Nfs4FileHandle,
    r: Option<Outbound>,
)
    requires
        before.obstacle(client_id) is None,
        before.wf(),
        after.has_sent(&before, client_id, CallbackOp::Recall { stateid, truncate }, fh, r),
    ensures
        before.route(client_id) is Some,
        ({
            let k = before.route(client_id)->Some_0;
            let c = before.channels@[k];
            let d = after.channels@[k];
            &&& r is Some <==> c.wire is Some
            &&& r is Some ==> exists|i: int|
                #![trigger c.slots@[i]]
                {
                    &&& 0 <= i < c.slots@.len()
                    &&& !c.slots@[i].in_use
                    &&& forall|j: int| 0 <= j < i ==> #[trigger] c.slots@[j].in_use
                    &&& r->Some_0.transport == c.wire->Some_0
                    &&& r->Some_0.xid == before.next_xid
                    &&& after.next_xid != before.next_xid
                    &&& calls_back(
                        r->Some_0.bytes@,
                        before.next_xid,
                        c.cb_program,
                        c.auth.encoding(),
                        c.session_id@,
                        c.slots@[i].sequence,
                        i as u32,
                        (c.slots@.len() - 1) as u32,
                        stateid,
                        truncate,
                        fh@,
                    )
                    &&& d.slots@[i].in_use
                    &&& c.slots@[i].sequence < 0xffff_ffff ==> d.slots@[i].sequence
                        == c.slots@[i].sequence + 1
                    &&& forall|j: int|
                        0 <= j < c.slots@.len() && j != i ==> #[trigger] d.slots@[j]
                            == c.slots@[j]
                    &&& after.inflight@.contains_key(before.next_xid)
                    &&& after.inflight@[before.next_xid] == k
                }
        }),
{
    let k = before.route(client_id)->Some_0;
    let c = before.channels@[k];
    law_first_session_that_is_up_is_called_through(
        before.client_sessions.of(client_id),
        before.channels@,
        0,
    );
    law_first_slot_that_is_free_is_taken(c.slots@, 0);
    if c.wire is Some {
        let i = free_slot(c.slots@, 0)->Some_0;
        assert(c.wf());
        assert(c.slots@[i].slot_id == i);
        message_found(
            c,
            before.next_xid,
            i as u32,
            c.slots@[i].sequence,
            c.highest(),
            stateid,
            truncate,
            fh@,
        );
        assert(!c.slots@[i].in_use);
    }
}

/// A client that has answered a call back frees the slot that the call took, and the call is no
/// longer waited for. Its session counts as down where the answer could not be understood.
pub proof fn law_answer_frees_the_slot(
    before: BackchannelManager,
    after: BackchannelManager,
    xid: u32,
    down: bool,
    r: Option<CallbackOp>,
)
    requires
        before.wf(),
        after.has_completed(&before, xid, down, r),
    ensures
        !after.inflight@.contains_key(xid),
        forall|x: u32|
            x != xid ==> (#[trigger] after.inflight@.contains_key(x)
                <==> before.inflight@.contains_key(x)),
        r is Some ==> ({
            let k = before.inflight@[xid];
            let c = before.channels@[k];
            let d = after.channels@[k];
            let slot = c.inflight@[xid].slot_id as int;
            &&& before.inflight@.contains_key(xid)
            &&& c.inflight@.contains_key(xid)
            &&& r == Some(c.inflight@[xid].op)
            &&& !d.inflight@.contains_key(xid)
            &&& slot < c.slots@.len() ==> !d.slots@[slot].in_use && d.slots@[slot].sequence
                == c.slots@[slot].sequence
            &&& forall|j: int|
                0 <= j < c.slots@.len() && j != slot ==> #[trigger] d.slots@[j] == c.slots@[j]
            &&& down ==> d.state == BackchannelState::Down
            &&& !down ==> d.state == c.state
        }),
        before.inflight@.contains_key(xid) && before.channels@.contains_key(before.inflight@[xid])
            && before.channels@[before.inflight@[xid]].inflight@.contains_key(xid) ==> r is Some,
{
}

// ---------------------------------------------------------------------------
// Delegations
// ---------------------------------------------------------------------------

/// A delegation is called back from the client that holds it, once, with the delegation that it
/// holds, and counts as called back from then on. Where its client cannot be called, it does not.
pub proof fn law_delegation_is_called_back_from_its_holder(
    before: DelegationManager,
    after: DelegationManager,
    now: Duration,
    fileid: Fileid4,
    fh: Nfs4FileHandle,
    truncate: bool,
    chan: BackchannelManager,
    chan2: BackchannelManager,
    r: Nfs4Result<Option<Outbound>>,
)
    requires
        after.has_recalled(&before, now, fileid, fh, truncate, &chan, &chan2, r),
    ensures
        !before.delegations@.contains_key(fileid) ==> r is Err && r->Err_0.status
            == Nfs4Status::BadStateid && chan2 == chan,
        before.delegations@.contains_key(fileid) ==> ({
            let d = before.delegations@[fileid];
            let e = after.delegations@[fileid];
            &&& after.delegations@.contains_key(fileid)
            &&& e.stateid == d.stateid && e.clientid == d.clientid && e.deleg_type == d.deleg_type
            &&& d.recall_initiated ==> r is Ok && r->Ok_0 is None && chan2 == chan && e == d
            &&& !d.recall_initiated && chan.obstacle(d.clientid) is None ==> {
                &&& r is Ok
                &&& chan2.has_sent(
                    &chan,
                    d.clientid,
                    CallbackOp::Recall { stateid: d.stateid, truncate },
                    fh,
                    r->Ok_0,
                )
                &&& e.recall_initiated
                &&& e.recall_time == Some(now)
            }
            &&& !d.recall_initiated && chan.obstacle(d.clientid) is Some ==> {
                &&& r is Err
                &&& r->Err_0.status == chan.obstacle(d.clientid)->Some_0
                &&& !e.recall_initiated
                &&& e.recall_time is None
            }
        }),
        forall|f: u64|
            f != fileid ==> (#[trigger] after.delegations@.contains_key(f)
                <==> before.delegations@.contains_key(f)),
        forall|f: u64|
            f != fileid && #[trigger] after.delegations@.contains_key(f)
                ==> after.delegations@[f] == before.delegations@[f],
{
}

/// A delegation that was called back is taken away once more time has passed than a client is
/// given, and no other is; what is told is which, and whose they were.
pub proof fn law_delegation_is_taken_away_in_time(
    before: DelegationManager,
    after: DelegationManager,
    now: Duration,
    r: Seq<(u64, u64)>,
    f: u64,
)
    requires
        after.has_cleaned_up(&before, now, r),
        before.delegations@.contains_key(f),
    ensures
        ({
            let d = before.delegations@[f];
            let late = d.recall_time is Some && now.nanos - d.recall_time->Some_0.nanos
                > before.recall_timeout.nanos;
            &&& after.delegations@.contains_key(f) <==> !late
            &&& !late ==> after.delegations@[f] == d
            &&& late <==> exists|i: int| 0 <= i < r.len() && #[trigger] r[i] == (f, d.clientid)
        }),
{
    let d = before.delegations@[f];
    let late = d.recall_time is Some && now.nanos - d.recall_time->Some_0.nanos
        > before.recall_timeout.nanos;
    assert(late <==> d.overdue(now, before.recall_timeout));
    if late {
        assert(before.delegations@.contains_key(f) && d.overdue(now, before.recall_timeout));
        let i = choose|i: int| 0 <= i < r.len() && (#[trigger] r[i]).0 == f;
        assert(r[i] == (f, d.clientid));
    }
}

/// A delegation whose holder was not reached does not count as called back; it is the one that is
/// named, and no other is touched.
pub proof fn law_unheard_recall_is_taken_back(
    before: DelegationManager,
    after: DelegationManager,
    stateid: Stateid4,
)
    requires
        before.wf(),
        after.has_dropped_recall(&before, stateid),
    ensures
        forall|f: u64| #[trigger]
            after.delegations@.contains_key(f) <==> before.delegations@.contains_key(f),
        forall|f: u64| #[trigger]
            before.delegations@.contains_key(f) ==> ({
                let d = before.delegations@[f];
                let e = after.delegations@[f];
                let k = key12(stateid.other@);
                if before.stateid_to_file@.contains_key(k) && before.stateid_to_file@[k] == f {
                    &&& !e.recall_initiated
                    &&& e.recall_time is None
                    &&& e.stateid == d.stateid
                    &&& e.clientid == d.clientid
                    &&& e.deleg_type == d.deleg_type
                } else {
                    e == d
                }
            }),
{
}

// ---------------------------------------------------------------------------
// Time
// ---------------------------------------------------------------------------

/// A lease lasts for its time from when it was last renewed, and as long as it is reserved. What is
/// left of it is the time until then, in whole seconds.
pub proof fn law_lease_lasts_for_its_time(l: LeaseState, now: Duration, lifetime: Duration)
    requires
        now.nanos >= l.last_renew.nanos,
        lifetime.nanos < 0x1_0000_0000_0000_0000 * 1_000_000_000,
    ensures
        l.valid_at(now, lifetime) <==> l.reservations > 0 || now.nanos < l.last_renew.nanos
            + lifetime.nanos,
        l.reservations > 0 ==> l.left_at(now, lifetime) == lifetime.nanos / 1_000_000_000,
        l.reservations == 0 && l.valid_at(now, lifetime) ==> l.left_at(now, lifetime) == (
        l.last_renew.nanos + lifetime.nanos - now.nanos) / 1_000_000_000,
        !l.valid_at(now, lifetime) ==> l.left_at(now, lifetime) == 0,
{
}

/// A lease that is released starts anew with the last reservation, and stays as it was renewed with
/// any other.
pub proof fn law_lease_starts_anew_with_the_last_release(l: LeaseState, now: Duration)
    requires
        l.reservations > 0,
    ensures
        l.released_at(now).reservations == l.reservations - 1,
        l.reservations == 1 ==> l.released_at(now).last_renew == now,
        l.reservations > 1 ==> l.released_at(now).last_renew == l.last_renew,
        l.released_at(now).clientid == l.clientid,
        l.released_at(now).confirmed == l.confirmed,
{
}

/// Those whose leases are over are the confirmed clients that were not heard of for the time of a
/// lease and have nothing reserved.
pub proof fn law_expired_clients_were_not_heard_of(
    m: LeaseManager,
    now: Duration,
    c: Clientid4,
)
    requires
        m.leases@.contains_key(c),
        now.nanos >= m.leases@[c].last_renew.nanos,
    ensures
        m.expired_at(now, c) <==> m.leases@[c].confirmed && m.leases@[c].reservations == 0
            && now.nanos - m.leases@[c].last_renew.nanos >= m.lease_lifetime.nanos,
        m.valid_at(now, c) <==> m.leases@[c].reservations > 0 || now.nanos
            - m.leases@[c].last_renew.nanos < m.lease_lifetime.nanos,
{
}

/// While what was held before can be reclaimed, that alone is let in, and only then; and nothing is
/// while that is about to change. What is not let in is told why.
pub proof fn law_operations_are_let_in_by_the_period(g: GracePeriodManager, reclaims: bool)
    ensures
        g.sticky_grace ==> (g.admits(reclaims) <==> reclaims == g.active && !g.change_req),
        !g.sticky_grace ==> (g.admits(reclaims) <==> reclaims == g.active),
        GracePeriodManager::refusal(true) == Nfs4Status::NoGrace,
        GracePeriodManager::refusal(false) == Nfs4Status::Grace,
{
}

/// The period starts at the time at which it is entered and ends, where nothing holds it, once its
/// time has passed since; what is left of it is the time until then.
pub proof fn law_period_runs_from_its_start(
    g: GracePeriodManager,
    start: Duration,
    now: Duration,
)
    requires
        !g.graceless,
        !g.active,
        !g.sticky_grace || g.refs == 0,
        now.nanos >= start.nanos,
    ensures
        ({
            let p = g.entering(start);
            let over = now.nanos - start.nanos >= g.duration.nanos;
            &&& p.active
            &&& !p.change_req
            &&& p.start_time == Some(start)
            &&& p.lifts_at(now) <==> over
            &&& over ==> !p.lifting(now).active && p.lifting(now).start_time is None
                && p.left_at(now) is None
            &&& !over ==> p.lifting(now) == p && p.left_at(now) is Some && p.left_at(
                now,
            )->Some_0.nanos == start.nanos + g.duration.nanos - now.nanos
        }),
{
}

/// A period that is held neither starts nor ends; that it should is noted.
pub proof fn law_held_period_waits(g: GracePeriodManager, now: Duration)
    requires
        g.sticky_grace,
        g.refs > 0,
    ensures
        !g.graceless && !g.active ==> !g.entering(now).active && g.entering(now).change_req,
        g.active && g.expired_at(now) ==> g.lifting(now).active && g.lifting(now).change_req,
        g.active && !g.expired_at(now) ==> g.lifting(now) == g,
        g.graceless ==> g.entering(now) == g,
{
}

} // verus!
