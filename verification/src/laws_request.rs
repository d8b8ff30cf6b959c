//! What a message comes to, from its bytes to those of the reply.

use crate::bytes::{be32, be32_at, opaque, XdrError};
use crate::compound::{CompoundHandler, Nfs4Op};
use crate::error::Nfs4Status;
use crate::laws_data::{bytes_at, word_at};
use crate::laws_order::opaque_size;
use crate::ops::OpStep;
use crate::portmap::mapping;
use crate::request::{
    answer_bytes, compound_bytes, leads_to, overall, results_bytes, CompoundHead, Moment, OpResult,
    Run, RunStep,
};
use crate::rpc::{
    accept_body, accepted_bytes, auth_flavor, auth_unix, call_body, mismatch_info, reply_body,
    rpc_msg,
};
use crate::time::Duration;
use crate::transaction::{kept, TransactionTracker};
use crate::wire::{
    all_done, announced, callback_results, is_caller, last_went_well, results_end, CallbackResults,
    Received, RpcServer,
};
use crate::xdr::{opaque_at, Decode, XDR};
use vstd::prelude::*;

verus! {

/// Whether a reply is to the call with the given number, was accepted without a word on who
/// answers, and came to the given end: done (0), no such program (1), no such version (2), no such
/// procedure (3), not understood (4).
pub open spec fn accepts(reply: Seq<u8>, xid: u32, end: u32) -> bool {
    &&& reply.len() >= 24
    &&& be32_at(reply) == xid
    &&& be32_at(reply.skip(4)) == 1
    &&& be32_at(reply.skip(8)) == 0
    &&& be32_at(reply.skip(12)) == 0
    &&& be32_at(reply.skip(16)) == 0
    &&& be32_at(reply.skip(20)) == end
}

proof fn accepted_head(xid: u32, end: u32, t: Seq<u8>)
    ensures
        ({
            let s = be32(xid) + be32(1) + be32(0) + be32(0) + be32(0) + (be32(end) + t);
            &&& accepts(s, xid, end)
            &&& s.skip(24) == t
            &&& s.len() == 24 + t.len()
        }),
{
    let (a, b) = (be32(xid), be32(1));
    let (c, d) = (be32(0), be32(end));
    let s = a + b + c + c + c + (d + t);
    assert(a.len() == 4 && b.len() == 4 && c.len() == 4 && d.len() == 4);
    word_at(Seq::empty(), xid, b + c + c + c + (d + t));
    assert(Seq::<u8>::empty() + be32(xid) + (b + c + c + c + (d + t)) =~= s);
    assert(s.skip(0) =~= s);
    word_at(a, 1, c + c + c + (d + t));
    assert(a + b + (c + c + c + (d + t)) =~= s);
    word_at(a + b, 0, c + c + (d + t));
    assert((a + b) + c + (c + c + (d + t)) =~= s);
    word_at(a + b + c, 0, c + (d + t));
    assert((a + b + c) + c + (c + (d + t)) =~= s);
    word_at(a + b + c + c, 0, d + t);
    assert((a + b + c + c) + c + (d + t) =~= s);
    word_at(a + b + c + c + c, end, t);
    assert((a + b + c + c + c) + d + t =~= s);
}

/// The reply to a call that was accepted carries the number of the call, and says by a number what
/// it came to. Where the version is not known, the versions that are follow.
pub proof fn law_reply_answers_its_call(xid: u32, low: u32, high: u32)
    ensures
        accepts(accepted_bytes(xid, accept_body::SUCCESS), xid, 0),
        accepted_bytes(xid, accept_body::SUCCESS).len() == 24,
        accepts(accepted_bytes(xid, accept_body::PROG_UNAVAIL), xid, 1),
        accepted_bytes(xid, accept_body::PROG_UNAVAIL).len() == 24,
        ({
            let s = accepted_bytes(xid, accept_body::PROG_MISMATCH(mismatch_info { low, high }));
            &&& accepts(s, xid, 2)
            &&& s.len() == 32
            &&& be32_at(s.skip(24)) == low
            &&& be32_at(s.skip(28)) == high
        }),
        accepts(accepted_bytes(xid, accept_body::PROC_UNAVAIL), xid, 3),
        accepted_bytes(xid, accept_body::PROC_UNAVAIL).len() == 24,
        accepts(accepted_bytes(xid, accept_body::GARBAGE_ARGS), xid, 4),
        accepted_bytes(xid, accept_body::GARBAGE_ARGS).len() == 24,
{
    let none = Seq::<u8>::empty();
    accepted_head(xid, 0, none);
    accepted_head(xid, 1, none);
    accepted_head(xid, 3, none);
    accepted_head(xid, 4, none);
    assert(be32(0) + none =~= be32(0));
    assert(be32(1) + none =~= be32(1));
    assert(be32(3) + none =~= be32(3));
    assert(be32(4) + none =~= be32(4));
    let v = mismatch_info { low, high };
    accepted_head(xid, 2, v.encoding());
    assert(v.encoding() =~= be32(low) + be32(high));
    let s = accepted_bytes(xid, accept_body::PROG_MISMATCH(v));
    crate::bytes::be32_round_trip(low, be32(high));
    crate::bytes::be32_round_trip(high, none);
    assert(be32(high) + none =~= be32(high));
    assert(s.skip(28) =~= s.skip(24).skip(4));
    assert(s.skip(24).skip(4) =~= be32(high));
}

/// The end of a reply that answers operations: a number for how they came out, the word that the
/// client sent along, and how many were run.
#[verifier::opaque]
pub open spec fn tells_outcome(
    reply: Seq<u8>,
    xid: u32,
    status: u32,
    tag: Seq<u8>,
    count: nat,
) -> bool {
    let n = 28 + opaque_size(reply.skip(28));
    &&& accepts(reply, xid, 0)
    &&& be32_at(reply.skip(24)) == status
    &&& be32_at(reply.skip(28)) == tag.len()
    &&& forall|i: int| 0 <= i < tag.len() ==> #[trigger] reply[32 + i] == tag[i]
    &&& be32_at(reply.skip(n)) == count
    &&& reply.len() >= n + 4
}

/// What stands behind each of four parts.
proof fn four_parts(h: Seq<u8>, a: Seq<u8>, o: Seq<u8>, c: Seq<u8>, r: Seq<u8>)
    ensures
        ({
            let s = h + (a + o + c + r);
            &&& s.skip(h.len() as int) == a + (o + c + r)
            &&& s.skip((h.len() + a.len()) as int) == o + (c + r)
            &&& s.skip((h.len() + a.len() + o.len()) as int) == c + r
            &&& s.skip((h.len() + a.len() + o.len() + c.len()) as int) == r
        }),
{
    let s = h + (a + o + c + r);
    assert(s.skip(h.len() as int) =~= a + (o + c + r));
    assert(s.skip((h.len() + a.len()) as int) =~= o + (c + r));
    assert(s.skip((h.len() + a.len() + o.len()) as int) =~= c + r);
    assert(s.skip((h.len() + a.len() + o.len() + c.len()) as int) =~= r);
}

/// What is found of a word, an opaque value and a word behind other bytes.
proof fn outcome_found(h: Seq<u8>, x: u32, tag: Seq<u8>, y: u32, r: Seq<u8>)
    requires
        tag.len() <= u32::MAX,
    ensures
        ({
            let s = h + (be32(x) + opaque(tag) + be32(y) + r);
            let n = h.len() as int;
            let m = opaque(tag).len() as int;
            &&& be32_at(s.skip(n)) == x
            &&& be32_at(s.skip(n + 4)) == tag.len()
            &&& opaque_size(s.skip(n + 4)) == m
            &&& forall|i: int| 0 <= i < tag.len() ==> #[trigger] s[n + 8 + i] == tag[i]
            &&& be32_at(s.skip(n + 4 + m)) == y
            &&& s.skip(n + 8 + m) == r
            &&& s.len() == n + 8 + m + r.len()
        }),
{
    let (a, o, c) = (be32(x), opaque(tag), be32(y));
    assert(a.len() == 4 && c.len() == 4);
    four_parts(h, a, o, c, r);
    crate::bytes::be32_round_trip(x, o + c + r);
    crate::bytes::be32_round_trip(y, r);
    crate::xdr::opaque_round_trip(tag, tag.len(), c + r);
    let s = h + (a + o + c + r);
    let n = h.len() as int;
    let none = Seq::<u8>::empty();
    bytes_at(none, tag, c + r);
    assert(none + o + (c + r) =~= o + (c + r));
    assert((o + (c + r)).skip(0) =~= o + (c + r));
    assert forall|i: int| 0 <= i < tag.len() implies #[trigger] s[n + 8 + i] == tag[i] by {
        assert((none + o + (c + r))[none.len() + 4 + i] == tag[i]);
        assert(s.skip(n + 4)[4 + i] == s[n + 8 + i]);
    }
}

proof fn outcome_told(xid: u32, status: Nfs4Status, tag: Seq<u8>, results: Seq<OpResult>)
    requires
        tag.len() <= u32::MAX,
        results.len() <= u32::MAX,
    ensures
        ({
            let s = compound_bytes(xid, status, tag, results);
            &&& tells_outcome(s, xid, status.code_of(), tag, results.len())
            &&& s.skip(32 + opaque(tag).len() as int) == results_bytes(results)
            &&& s.len() >= 32 + opaque(tag).len()
        }),
{
    reveal(tells_outcome);
    let answer = answer_bytes(status, tag, results);
    let s = compound_bytes(xid, status, tag, results);
    let h = accepted_bytes(xid, accept_body::SUCCESS);
    accepted_head(xid, 0, answer);
    let front = be32(xid) + be32(1) + be32(0) + be32(0) + be32(0);
    crate::bytes::add_assoc(front, be32(0), answer);
    assert(s == front + (be32(0) + answer));
    assert(h.len() == 24);
    outcome_found(
        h,
        status.code_of(),
        tag,
        results.len() as u32,
        results_bytes(results),
    );
}

/// The reply to operations carries the number of the call and the word that the client sent along,
/// how the last operation that was run came out, and how many were run.
pub proof fn law_reply_tells_how_the_operations_came_out(
    xid: u32,
    tag: Seq<u8>,
    results: Seq<OpResult>,
)
    requires
        tag.len() <= u32::MAX,
        0 < results.len() <= u32::MAX,
    ensures
        tells_outcome(
            compound_bytes(xid, overall(results), tag, results),
            xid,
            results[results.len() - 1].status.code_of(),
            tag,
            results.len(),
        ),
{
    outcome_told(xid, overall(results), tag, results);
}

/// Each operation is told, in the order in which they were run, by its number and the number for
/// how it came out, with what it gives behind them where it went well and nothing where it did
/// not.
pub proof fn law_each_operation_is_told(results: Seq<OpResult>, next: OpResult)
    ensures
        ({
            let n = results_bytes(results).len() as int;
            let s = results_bytes(results.push(next));
            &&& s.len() >= n + 8
            &&& s.take(n) == results_bytes(results)
            &&& be32_at(s.skip(n)) == next.op.code_of()
            &&& be32_at(s.skip(n + 4)) == next.status.code_of()
            &&& next.status == Nfs4Status::Success ==> s.skip(n + 8) == next.data@
            &&& next.status != Nfs4Status::Success ==> s.len() == n + 8
        }),
        results_bytes(Seq::empty()).len() == 0,
{
    let a = results_bytes(results);
    let s = results_bytes(results.push(next));
    assert(results.push(next).drop_last() =~= results);
    let t = if next.status == Nfs4Status::Success {
        next.data@
    } else {
        Seq::<u8>::empty()
    };
    let (x, y) = (next.op.code_of(), next.status.code_of());
    assert(s =~= a + be32(x) + (be32(y) + t));
    word_at(a, x, be32(y) + t);
    assert(s =~= (a + be32(x)) + be32(y) + t);
    word_at(a + be32(x), y, t);
    assert(s.take(a.len() as int) =~= a);
}

/// A request for operations is refused whole, with nothing run and nothing changed, where its
/// minor version is beyond 1 or where it holds more than 64 operations.
pub proof fn law_request_of_another_kind_is_refused(
    before: CompoundHandler,
    after: CompoundHandler,
    xid: u32,
    s: Seq<u8>,
    auth: auth_unix,
    out: RunStep<'_>,
)
    requires
        after.has_handled_compound(&before, xid, s, auth, out),
        CompoundHead::decoded_len(s) is Ok,
    ensures
        be32_at(s.skip(opaque_size(s))) > 1 ==> {
            &&& out is Done
            &&& out->reply is Ok
            &&& tells_outcome(out->reply->Ok_0@, xid, 10021, opaque_at(s), 0)
            &&& after == before
        },
        be32_at(s.skip(opaque_size(s))) <= 1 && be32_at(s.skip(opaque_size(s) + 4)) > 64 ==> {
            &&& out is Done
            &&& out->reply is Ok
            &&& tells_outcome(out->reply->Ok_0@, xid, 10070, opaque_at(s), 0)
            &&& after == before
        },
{
    let head = choose|head: CompoundHead| #[trigger]
        head.decodes_to(s) && after.has_started(
            &before,
            xid,
            head,
            auth,
            s.skip(CompoundHead::decoded_len(s)->Ok_0 as int),
            out,
        );
    crate::laws_order::law_compound_head_stands_in_order(head, s);
    assert(head.tag@.len() <= u32::MAX);
    let none = Seq::<OpResult>::empty();
    outcome_told(xid, Nfs4Status::MinorVersMismatch, head.tag@, none);
    outcome_told(xid, Nfs4Status::TooManyOps, head.tag@, none);
}

/// A request for operations is run with who sent it and under its number and word: as many
/// operations as it says, the first of which is the one whose number stands first.
pub proof fn law_request_is_run_as_it_was_sent(
    before: CompoundHandler,
    after: CompoundHandler,
    xid: u32,
    s: Seq<u8>,
    auth: auth_unix,
    out: RunStep<'_>,
)
    requires
        after.has_handled_compound(&before, xid, s, auth, out),
        CompoundHead::decoded_len(s) is Ok,
        be32_at(s.skip(opaque_size(s))) <= 1,
        be32_at(s.skip(opaque_size(s) + 4)) <= 64,
    ensures
        exists|run: Run|
            {
                &&& #[trigger] after.has_begun_run(&before, run, out)
                &&& run.xid == xid
                &&& run.tag == opaque_at(s)
                &&& run.op_count == be32_at(s.skip(opaque_size(s) + 4))
                &&& run.left == s.skip(opaque_size(s) + 8)
                &&& run.ctx.auth == auth
                &&& run.ctx.minor_version == be32_at(s.skip(opaque_size(s)))
                &&& run.ctx.current_fh is None
                &&& run.ctx.saved_fh is None
                &&& run.ctx.sessionid is None
                &&& run.ctx.clientid is None
                &&& run.results.len() == 0
            },
{
    broadcast use {crate::bytes::skip_skip, crate::bytes::skip_nothing};

    let n = CompoundHead::decoded_len(s)->Ok_0 as int;
    let head = choose|head: CompoundHead| #[trigger]
        head.decodes_to(s) && after.has_started(&before, xid, head, auth, s.skip(n), out);
    crate::laws_order::law_compound_head_stands_in_order(head, s);
    assert(n == opaque_size(s) + 8);
}

/// An operation is told by what it came to: as well, with its bytes, or with its failure. The next
/// one is the one whose number comes next in the request, and is run only where it went well.
pub proof fn law_next_operation_is_the_next_in_the_request(m: Moment, n: Moment)
    requires
        leads_to(m, n),
    ensures
        m.step is Done && m.step->result is Ok,
        n.run.op == Nfs4Op::of_code(be32_at(m.run.left)),
        n.run.args == m.run.left.skip(4),
        n.run.xid == m.run.xid,
        n.run.tag == m.run.tag,
        n.run.results.len() == m.run.results.len() + 1,
        n.run.results.last().op == m.run.op,
        n.run.results.last().status == Nfs4Status::Success,
        n.run.results.last().data == m.step->result->Ok_0,
        forall|i: int|
            0 <= i < m.run.results.len() ==> #[trigger] n.run.results[i] == m.run.results[i],
{
    assert forall|i: int| 0 <= i < m.run.results.len() implies #[trigger] n.run.results[i]
        == m.run.results[i] by {
        assert(n.run.results.drop_last()[i] == n.run.results[i]);
    }
}

/// An operation that has failed is the last that is told, with its failure, behind those that went
/// well before it.
pub proof fn law_failed_operation_is_the_last_told(
    after: CompoundHandler,
    m: Moment,
    out: RunStep<'_>,
)
    requires
        m.step is Done,
        m.step->result is Err,
        after.has_come_to(m, out),
        out->reply is Ok,
        m.run.results.len() < u32::MAX,
    ensures
        out is Done,
        m.run.tag.len() < u32::MAX,
        tells_outcome(
            out->reply->Ok_0@,
            m.run.xid,
            m.step->result->Err_0.status.code_of(),
            m.run.tag,
            m.run.results.len() + 1,
        ),
        ({
            let n = 32 + opaque(m.run.tag).len() as int + results_bytes(
                m.run.results,
            ).len() as int;
            let reply = out->reply->Ok_0@;
            &&& be32_at(reply.skip(n)) == m.run.op.code_of()
            &&& be32_at(reply.skip(n + 4)) == m.step->result->Err_0.status.code_of()
        }),
{
    let result = m.step->result;
    let results = choose|results: Seq<OpResult>| #[trigger]
        after.has_ended(m, result, results, out);
    assert(after.has_answered(&m.handler, m.run, results, out));
    last_is_told(m.run.xid, m.run.tag, m.run.results, results);
}

proof fn last_is_told(xid: u32, tag: Seq<u8>, before: Seq<OpResult>, results: Seq<OpResult>)
    requires
        tag.len() < u32::MAX,
        before.len() < u32::MAX,
        results.len() == before.len() + 1,
        results.drop_last() == before,
    ensures
        ({
            let reply = compound_bytes(xid, overall(results), tag, results);
            let n = 32 + opaque(tag).len() as int + results_bytes(before).len() as int;
            &&& tells_outcome(
                reply,
                xid,
                results.last().status.code_of(),
                tag,
                before.len() + 1,
            )
            &&& be32_at(reply.skip(n)) == results.last().op.code_of()
            &&& be32_at(reply.skip(n + 4)) == results.last().status.code_of()
        }),
{
    outcome_told(xid, overall(results), tag, results);
    assert(results =~= before.push(results.last()));
    law_each_operation_is_told(before, results.last());
    further_behind(
        compound_bytes(xid, overall(results), tag, results),
        32 + opaque(tag).len() as int,
        results_bytes(results),
        results_bytes(before).len() as int,
    );
}

proof fn further_behind(s: Seq<u8>, h: int, t: Seq<u8>, n: int)
    requires
        0 <= h <= s.len(),
        s.skip(h) == t,
        0 <= n,
        n + 8 <= t.len(),
    ensures
        s.skip(h + n) == t.skip(n),
        s.skip(h + n + 4) == t.skip(n + 4),
{
    crate::bytes::skip_skip(s, h, n);
    crate::bytes::skip_skip(s, h, n + 4);
}

/// Where a client had to be called back, it is asked to come again once that was sent, and told
/// that it cannot be called back where it could not be.
pub proof fn law_called_back_client_is_waited_for(
    before: CompoundHandler,
    after: CompoundHandler,
    xid: u32,
    sent: bool,
    step: OpStep,
)
    requires
        after.has_called_back(&before, xid, sent, step),
    ensures
        step is Done,
        step->result is Err,
        step->result->Err_0.status.code_of() == if sent {
            10008u32
        } else {
            10048u32
        },
        sent ==> after == before,
        !sent ==> !after.backchannel.inflight@.contains_key(xid),
{
}

/// Of the file service, the fourth version is known alone, and of that the procedure that does
/// nothing and the one that runs operations.
pub proof fn law_call_goes_by_version_and_procedure(
    before: CompoundHandler,
    after: CompoundHandler,
    xid: u32,
    vers: u32,
    proc: u32,
    s: Seq<u8>,
    auth: auth_unix,
    out: RunStep<'_>,
)
    requires
        after.has_handled_call(&before, xid, vers, proc, s, auth, out),
    ensures
        vers == 4 && proc == 1 ==> after.has_handled_compound(&before, xid, s, auth, out),
        vers != 4 || proc != 1 ==> {
            &&& after == before
            &&& out is Done
            &&& out->reply is Ok
        },
        vers != 4 ==> {
            &&& accepts(out->reply->Ok_0@, xid, 2)
            &&& be32_at(out->reply->Ok_0@.skip(24)) == 4
            &&& be32_at(out->reply->Ok_0@.skip(28)) == 4
        },
        vers == 4 && proc == 0 ==> accepts(out->reply->Ok_0@, xid, 0) && out->reply->Ok_0@.len()
            == 24,
        vers == 4 && proc > 1 ==> accepts(out->reply->Ok_0@, xid, 3),
{
    law_reply_answers_its_call(xid, 4, 4);
}

/// The mark in front of a part of a message is its length, and has the highest bit set in front of
/// the last part.
pub proof fn law_mark_tells_length_and_end(mark: u32)
    ensures
        announced(mark).len == mark % 0x8000_0000,
        announced(mark).last <==> mark / 0x8000_0000 == 1,
{
}

/// Calls go by the number of the program: those of the file service in its fourth version to what
/// runs operations, those in other versions and of the mount service elsewhere, those for ports to
/// what tells the port, and any other is told that there is no such program.
pub proof fn law_call_goes_to_its_program(
    before: RpcServer,
    after: RpcServer,
    xid: u32,
    call: call_body,
    auth: auth_unix,
    s: Seq<u8>,
    client: Seq<u8>,
    local_port: u16,
    out: Received<'_>,
)
    requires
        after.has_dispatched(&before, xid, call, auth, s, client, local_port, out),
    ensures
        call.prog == 100003 && call.vers == 4 ==> {
            &&& out is Running
            &&& out->Running_xid == xid
            &&& after.handler.has_handled_call(
                &before.handler,
                xid,
                4,
                call.proc,
                s,
                auth,
                out->step,
            )
        },
        call.prog == 100003 && call.vers != 4 || call.prog == 100005 ==> {
            &&& out is Elsewhere
            &&& out->Elsewhere_xid == xid
            &&& out->call == call
            &&& out->auth == auth
            &&& out->input@ == s
        },
        call.prog == 100000 && call.vers != 2 ==> {
            &&& out is Reply
            &&& accepts(out->bytes@, xid, 2)
            &&& be32_at(out->bytes@.skip(24)) == 2
            &&& be32_at(out->bytes@.skip(28)) == 2
        },
        call.prog == 100000 && call.vers == 2 && call.proc == 0 ==> {
            &&& out is Reply
            &&& accepts(out->bytes@, xid, 0)
            &&& out->bytes@.len() == 24
        },
        call.prog == 100000 && call.vers == 2 && call.proc == 3 && s.len() >= 16 ==> {
            &&& out is Reply
            &&& accepts(out->bytes@, xid, 0)
            &&& be32_at(out->bytes@.skip(24)) == local_port
            &&& out->bytes@.len() == 28
        },
        call.prog == 100000 && call.vers == 2 && call.proc == 3 && s.len() < 16 ==> out is Failed,
        call.prog == 100000 && call.vers == 2 && call.proc != 0 && call.proc != 3 ==> {
            &&& out is Reply
            &&& accepts(out->bytes@, xid, 3)
        },
        call.prog != 100003 && call.prog != 100005 && call.prog != 100000 ==> {
            &&& out is Reply
            &&& accepts(out->bytes@, xid, 1)
        },
{
    broadcast use {crate::bytes::skip_skip, crate::bytes::skip_nothing};

    law_reply_answers_its_call(xid, 2, 2);
    let port = be32(local_port as u32);
    accepted_head(xid, 0, port);
    assert(accepted_bytes(xid, accept_body::SUCCESS) + port =~= be32(xid) + be32(1) + be32(0)
        + be32(0) + be32(0) + (be32(0) + port));
    crate::bytes::be32_round_trip(local_port as u32, Seq::empty());
    assert(port + Seq::<u8>::empty() =~= port);
    assert(mapping::decoded_len(s) is Ok <==> s.len() >= 16);
}

/// A call of another version of the calls themselves is not accepted: it is told the versions that
/// are known. A call that was seen and is not yet forgotten is not answered again.
pub proof fn law_call_of_another_version_is_not_accepted(
    before: RpcServer,
    after: RpcServer,
    xid: u32,
    call: call_body,
    s: Seq<u8>,
    client: Seq<u8>,
    local_port: u16,
    out: Received<'_>,
)
    requires
        after.has_taken_call(&before, xid, call, s, client, local_port, out),
        call.rpcvers != 2,
        call.cred.flavor != auth_flavor::AUTH_UNIX,
    ensures
        out is Reply,
        out->bytes@.len() == 24,
        be32_at(out->bytes@) == xid,
        be32_at(out->bytes@.skip(4)) == 1,
        be32_at(out->bytes@.skip(8)) == 1,
        be32_at(out->bytes@.skip(12)) == 0,
        be32_at(out->bytes@.skip(16)) == 0,
        be32_at(out->bytes@.skip(20)) == 0,
        after == before,
{
    let b = out->bytes@;
    let (x, one, zero) = (be32(xid), be32(1), be32(0));
    assert(x.len() == 4 && one.len() == 4 && zero.len() == 4);
    assert(b =~= x + one + one + zero + zero + zero);
    assert(b =~= Seq::<u8>::empty() + x + (one + one + zero + zero + zero));
    word_at(Seq::empty(), xid, one + one + zero + zero + zero);
    assert(b.skip(0) =~= b);
    assert(b =~= x + one + (one + zero + zero + zero));
    word_at(x, 1, one + zero + zero + zero);
    assert(b =~= (x + one) + one + (zero + zero + zero));
    word_at(x + one, 1, zero + zero + zero);
    assert(b =~= (x + one + one) + zero + (zero + zero));
    word_at(x + one + one, 0, zero + zero);
    assert(b =~= (x + one + one + zero) + zero + zero);
    word_at(x + one + one + zero, 0, zero);
    assert(b =~= (x + one + one + zero + zero) + zero + Seq::<u8>::empty());
    word_at(x + one + one + zero + zero, 0, Seq::empty());
}

/// Who sends a call is who it says it is, by the numbers in what it shows, and nobody in particular
/// where it shows nothing of that kind.
pub proof fn law_caller_is_who_it_says_it_is(call: call_body, auth: auth_unix)
    requires
        is_caller(call, auth),
    ensures
        call.cred.flavor == auth_flavor::AUTH_UNIX && auth_unix::decoded_len(call.cred.body@) is Ok
            ==> ({
            let b = call.cred.body@;
            let n = 4 + opaque_size(b.skip(4));
            &&& auth.stamp == be32_at(b)
            &&& auth.machinename@ == opaque_at(b.skip(4))
            &&& auth.uid == be32_at(b.skip(n))
            &&& auth.gid == be32_at(b.skip(n + 4))
        }),
        call.cred.flavor != auth_flavor::AUTH_UNIX ==> auth.uid == 0 && auth.gid == 0
            && auth.gids@.len() == 0 && auth.machinename@.len() == 0,
{
    broadcast use {crate::bytes::skip_skip, crate::bytes::skip_nothing};

}

/// What a message begins with: its number, and whether it is a call (0) or a reply (1); behind a
/// call stand the version of the calls, the program, its version and its procedure.
pub proof fn law_message_is_read_by_its_first_words(msg: rpc_msg, s: Seq<u8>)
    requires
        rpc_msg::decoded_len(s) is Ok,
        msg.decodes_to(s),
    ensures
        msg.xid == be32_at(s),
        msg.body is CALL <==> be32_at(s.skip(4)) == 0,
        msg.body is REPLY <==> be32_at(s.skip(4)) == 1,
        msg.body is CALL ==> ({
            let call = msg.body->CALL_0;
            &&& call.rpcvers == be32_at(s.skip(8))
            &&& call.prog == be32_at(s.skip(12))
            &&& call.vers == be32_at(s.skip(16))
            &&& call.proc == be32_at(s.skip(20))
            &&& call.cred.flavor == auth_flavor::AUTH_UNIX <==> be32_at(s.skip(24)) == 1
            &&& call.cred.body@ == opaque_at(s.skip(28))
        }),
        msg.body is REPLY ==> {
            &&& msg.body->REPLY_0 is MSG_ACCEPTED <==> be32_at(s.skip(8)) == 0
            &&& msg.body->REPLY_0 is MSG_DENIED <==> be32_at(s.skip(8)) == 1
            &&& msg.body->REPLY_0 is MSG_ACCEPTED ==> (
            msg.body->REPLY_0->MSG_ACCEPTED_0.reply_data == accept_body::SUCCESS <==> be32_at(
                s.skip(16 + opaque_size(s.skip(16))),
            ) == 0)
        },
{
    broadcast use {crate::bytes::skip_skip, crate::bytes::skip_nothing};

}

/// Whether a number stands for no failure: it is 0, or none that is known.
pub open spec fn stands_for_no_failure(v: u32) -> bool {
    forall|st: Nfs4Status| #[trigger] st.code_of() == v ==> st == Nfs4Status::Success
}

/// A client that was called back to give a delegation back has been reached where the whole, the
/// slot and the giving back each came out well; where any did not, it has not.
pub proof fn law_recall_was_heard_where_all_went_well(
    status: u32,
    tag: Seq<u8>,
    first: u32,
    middle: Seq<u8>,
    second: u32,
    reply: reply_body,
)
    requires
        tag.len() <= 256,
        middle.len() == if stands_for_no_failure(first) {
            32nat
        } else {
            0nat
        },
        reply is MSG_ACCEPTED,
        reply->MSG_ACCEPTED_0.reply_data == accept_body::SUCCESS,
    ensures
        all_done(
            reply,
            be32(status) + opaque(tag) + be32(2) + be32(11) + be32(first) + middle + be32(4)
                + be32(second),
        ) <==> stands_for_no_failure(status) && stands_for_no_failure(first) && stands_for_no_failure(
            second,
        ),
        stands_for_no_failure(0),
{
    let v = be32(4) + be32(second);
    let u = be32(11) + be32(first) + middle + v;
    let s = be32(status) + opaque(tag) + be32(2) + u;
    assert(be32(status) + opaque(tag) + be32(2) + be32(11) + be32(first) + middle + be32(4) + be32(
        second,
    ) =~= s);
    let none = Seq::<u8>::empty();
    assert(none + s =~= s);
    outcome_found(none, status, tag, 2, u);
    results_found(first, middle, second);
    assert(s.skip(0) =~= s);
    let o = opaque(tag).len() as int;
    both_results(u, first, middle.len(), second);
    callback_found(s, u, o);
    success_is_no_failure(status);
    success_is_no_failure(first);
    success_is_no_failure(second);
}

proof fn success_is_no_failure(v: u32)
    ensures
        Nfs4Status::of_code(v) == Nfs4Status::Success <==> stands_for_no_failure(v),
        stands_for_no_failure(0),
{
    if exists|st: Nfs4Status| #[trigger] st.code_of() == v {
        let st = choose|st: Nfs4Status| #[trigger] st.code_of() == v;
        crate::error::law_status_code_reads_back(st);
        assert forall|other: Nfs4Status| #[trigger] other.code_of() == v implies other == st by {
            crate::error::law_status_code_reads_back(other);
        }
    }
}

proof fn results_found(first: u32, middle: Seq<u8>, second: u32)
    ensures
        ({
            let u = be32(11) + be32(first) + middle + (be32(4) + be32(second));
            let n = 8 + middle.len() as int;
            &&& u.len() == n + 8
            &&& be32_at(u) == 11
            &&& be32_at(u.skip(4)) == first
            &&& be32_at(u.skip(n)) == 4
            &&& be32_at(u.skip(n + 4)) == second
        }),
{
    let (a, b) = (be32(11), be32(first));
    let (c, d) = (be32(4), be32(second));
    let u = a + b + middle + (c + d);
    let none = Seq::<u8>::empty();
    assert(a.len() == 4 && b.len() == 4 && c.len() == 4 && d.len() == 4);
    word_at(none, 11, b + middle + (c + d));
    assert(none + a + (b + middle + (c + d)) =~= u);
    assert(u.skip(0) =~= u);
    word_at(a, first, middle + (c + d));
    assert(a + b + (middle + (c + d)) =~= u);
    word_at(a + b + middle, 4, d);
    assert((a + b + middle) + c + d =~= u);
    word_at(a + b + middle + c, second, none);
    assert((a + b + middle + c) + d + none =~= u);
}

proof fn both_results(u: Seq<u8>, first: u32, m: nat, second: u32)
    requires
        m == if stands_for_no_failure(first) {
            32nat
        } else {
            0nat
        },
        u.len() == m + 16,
        be32_at(u) == 11,
        be32_at(u.skip(4)) == first,
        be32_at(u.skip(m as int + 8)) == 4,
        be32_at(u.skip(m as int + 12)) == second,
    ensures
        results_end(u, 2) is Ok,
        last_went_well(u, 2, 11) <==> stands_for_no_failure(first),
        last_went_well(u, 2, 4) <==> stands_for_no_failure(second),
{
    reveal_with_fuel(results_end, 3);
    reveal_with_fuel(last_went_well, 3);
    success_is_no_failure(first);
    success_is_no_failure(second);
    assert(u.skip(0) =~= u);
    assert(u.skip(m as int + 8).skip(4) =~= u.skip(m as int + 12));
    assert(results_end(u, 1) == Ok::<nat, XdrError>(m + 8));
}

proof fn callback_found(s: Seq<u8>, u: Seq<u8>, o: int)
    requires
        be32_at(s.skip(4)) <= 256,
        opaque_size(s.skip(4)) == o,
        be32_at(s.skip(4 + o)) == 2,
        s.skip(8 + o) == u,
        s.len() == 8 + o + u.len(),
        results_end(u, 2) is Ok,
    ensures
        callback_results(s) == Ok::<CallbackResults, XdrError>(
            CallbackResults {
                status: Nfs4Status::of_code(be32_at(s)),
                seq_ok: last_went_well(u, 2, 11),
                recall_ok: last_went_well(u, 2, 4),
            },
        ),
{
    assert(s.skip(4 + o).skip(4) =~= s.skip(8 + o));
}

/// Once a client has answered a call back, the call is over. Where it was not done, the delegation
/// is no longer counted as called back; where it was, it is left to be given back.
pub proof fn law_answered_recall_is_over(
    before: CompoundHandler,
    after: CompoundHandler,
    s: Seq<u8>,
    xid: u32,
    reply: reply_body,
)
    requires
        after.has_taken_reply(&before, s, xid, reply),
    ensures
        !after.backchannel.inflight@.contains_key(xid),
        all_done(reply, s) ==> after.delegations == before.delegations,
        after.opens == before.opens,
        after.locks == before.locks,
        after.sessions == before.sessions,
        after.clients == before.clients,
{
}

/// A call that was answered is forgotten once its time is over: sent again after that, it counts
/// as a new one.
pub proof fn law_answered_call_is_forgotten_in_time(
    a: TransactionTracker,
    b: TransactionTracker,
    c: TransactionTracker,
    now: Duration,
    later: Duration,
    xid: u32,
    client: Seq<u8>,
    r: bool,
)
    requires
        b.has_marked(&a, now, xid, client),
        later.nanos > now.nanos + a.retention_period.nanos,
        c.has_seen(&b, later, xid, client, r),
    ensures
        !r,
{
    let s = kept(b.transactions@, later, b.retention_period);
    if r {
        let i = choose|i: int| 0 <= i < s.len() && (#[trigger] s[i]).is(xid, client);
        kept_last(b.transactions@, later, b.retention_period);
        assert(s[i].lasts(later, b.retention_period));
        assert(b.transactions@.contains(s[i]));
        let j = choose|j: int| 0 <= j < b.transactions@.len() && b.transactions@[j] == s[i];
        assert(b.transactions@[j].is(xid, client));
        assert(a.transactions@[j].is(xid, client));
    }
}

proof fn kept_last(s: Seq<crate::transaction::Transaction>, now: Duration, retention: Duration)
    ensures
        forall|i: int|
            0 <= i < kept(s, now, retention).len() ==> (#[trigger] kept(s, now, retention)[i]).lasts(
                now,
                retention,
            ) && s.contains(kept(s, now, retention)[i]),
    decreases s.len(),
{
    if s.len() > 0 {
        let less = s.drop_last();
        kept_last(less, now, retention);
        let k = kept(s, now, retention);
        let m = kept(less, now, retention);
        assert forall|i: int| 0 <= i < k.len() implies (#[trigger] k[i]).lasts(now, retention)
            && s.contains(k[i]) by {
            if i < m.len() {
                assert(k[i] == m[i]);
                let j = choose|j: int| 0 <= j < less.len() && less[j] == m[i];
                assert(s[j] == k[i]);
            } else {
                assert(s[s.len() - 1] == k[i]);
            }
        }
    }
}

} // verus!
