//! Compound requests: operation after operation until one fails, and one reply.

use crate::args::SequenceArgs;
use crate::backchannel::Outbound;
use crate::bytes::{be32, be32_at, key16, opaque, put_bytes, put_opaque, put_u32, Reader, XdrError};
use crate::compound::{CompoundContext, CompoundHandler, Nfs4Op};
use crate::error::{Nfs4Result, Nfs4Status};
use crate::ops::{give_up, gives_up, OpStep, OpTask};
use crate::pnfs::BlockRead;
use crate::rpc::{
    accept_body, accepted_bytes, auth_unix, call_body, mismatch_info, put_accepted,
};
use crate::session::Admission;
use crate::skip::{rest_len, skip_rest};
use crate::storage::{FsAnswer, FsCall};
use crate::types::{MAX_COMPOUND_OPS, NFS4_MINOR_VERSION, NFS4_VERSION};
use crate::xdr::{after, rest, Decode};
use vstd::prelude::*;

verus! {

// ---------------------------------------------------------------------------
// A request while it runs
// ---------------------------------------------------------------------------

/// What an operation has come to.
#[derive(Debug)]
pub struct OpResult {
    pub op: Nfs4Op,
    pub status: Nfs4Status,
    pub data: Vec<u8>,
}

/// A compound request while it runs.
pub struct CompoundRun<'a> {
    pub xid: u32,
    pub tag: Vec<u8>,
    /// What has not been read yet.
    pub input: Reader<'a>,
    pub op_count: usize,
    /// The operation that runs.
    pub op: Nfs4Op,
    /// What the operation is asked with, and all that follows.
    pub args: Reader<'a>,
    pub ctx: CompoundContext,
    pub results: Vec<OpResult>,
}

/// What a compound request is while it runs.
#[verifier::ext_equal]
pub struct Run {
    pub xid: u32,
    pub tag: Seq<u8>,
    pub left: Seq<u8>,
    pub op_count: usize,
    pub op: Nfs4Op,
    pub args: Seq<u8>,
    pub ctx: CompoundContext,
    pub results: Seq<OpResult>,
}

impl<'a> View for CompoundRun<'a> {
    type V = Run;

    open spec fn view(&self) -> Run {
        Run {
            xid: self.xid,
            tag: self.tag@,
            left: self.input@,
            op_count: self.op_count,
            op: self.op,
            args: self.args@,
            ctx: self.ctx,
            results: self.results@,
        }
    }
}

/// How long it is waited for a place for a callback, in milliseconds.
pub const CALLBACK_WAIT_MS: u64 = 100;

/// How a compound request goes on.
pub enum RunStep<'a> {
    /// The file system is called.
    Call { run: CompoundRun<'a>, task: OpTask, call: FsCall },
    /// A block is read.
    Block { run: CompoundRun<'a>, read: BlockRead },
    /// A client is called back.
    Send { run: CompoundRun<'a>, message: Outbound },
    /// It is waited for a place for another callback, at most for `CALLBACK_WAIT_MS`.
    Wait { run: CompoundRun<'a>, later: OpTask },
    /// There is a reply, or the request cannot be read.
    Done { reply: Result<Vec<u8>, XdrError> },
}

// ---------------------------------------------------------------------------
// The reply
// ---------------------------------------------------------------------------

/// What a client is told of an operation. What it has come to follows where it went well.
pub open spec fn result_bytes(r: OpResult) -> Seq<u8> {
    be32(r.op.code_of()) + be32(r.status.code_of()) + if r.status == Nfs4Status::Success {
        r.data@
    } else {
        Seq::empty()
    }
}

/// What a client is told of all operations that have run.
pub open spec fn results_bytes(results: Seq<OpResult>) -> Seq<u8>
    decreases results.len(),
{
    if results.len() == 0 {
        Seq::empty()
    } else {
        results_bytes(results.drop_last()) + result_bytes(results.last())
    }
}

/// The status of a request: that of the operation that has failed, if one has.
pub open spec fn overall(results: Seq<OpResult>) -> Nfs4Status {
    if results.len() == 0 {
        Nfs4Status::Success
    } else {
        results.last().status
    }
}

/// What a client is told of a compound request.
pub open spec fn answer_bytes(status: Nfs4Status, tag: Seq<u8>, results: Seq<OpResult>) -> Seq<u8> {
    be32(status.code_of()) + opaque(tag) + be32(results.len() as u32) + results_bytes(results)
}

/// The reply to a call with the number `xid` that is told `answer`.
pub open spec fn reply_bytes(xid: u32, answer: Seq<u8>) -> Seq<u8> {
    accepted_bytes(xid, accept_body::SUCCESS) + answer
}

/// The reply to a compound request.
pub open spec fn compound_bytes(
    xid: u32,
    status: Nfs4Status,
    tag: Seq<u8>,
    results: Seq<OpResult>,
) -> Seq<u8> {
    reply_bytes(xid, answer_bytes(status, tag, results))
}

fn put_head(out: &mut Vec<u8>, status: Nfs4Status, tag: &[u8], count: usize)
    ensures
        final(out)@ == old(out)@ + be32(status.code_of()) + opaque(tag@) + be32(count as u32),
{
    put_u32(out, status.code());
    put_opaque(out, tag);
    put_u32(out, #[verifier::truncate] (count as u32));
}

/// The reply to a call with the number `xid` that is told `answer`.
fn reply_to(xid: u32, answer: &[u8]) -> (r: Vec<u8>)
    ensures
        r@ == reply_bytes(xid, answer@),
{
    let mut out: Vec<u8> = Vec::new();
    put_accepted(&mut out, xid, accept_body::SUCCESS);
    put_bytes(&mut out, answer);
    assert(out@ =~= reply_bytes(xid, answer@));
    out
}

fn put_results(out: &mut Vec<u8>, results: &Vec<OpResult>)
    ensures
        final(out)@ == old(out)@ + results_bytes(results@),
{
    let ghost o = out@;
    let mut i: usize = 0;
    assert(results@.take(0) =~= Seq::empty());
    assert(o =~= o + results_bytes(results@.take(0)));
    while i < results.len()
        invariant
            i <= results@.len(),
            out@ == o + results_bytes(results@.take(i as int)),
        decreases results@.len() - i,
    {
        let r = &results[i];
        put_u32(out, r.op.code());
        put_u32(out, r.status.code());
        if r.status == Nfs4Status::Success {
            put_bytes(out, r.data.as_slice());
        }
        i += 1;
        assert(results@.take(i as int).drop_last() =~= results@.take(i - 1));
        assert(out@ =~= o + results_bytes(results@.take(i as int)));
    }
    assert(results@.take(i as int) =~= results@);
}

// ---------------------------------------------------------------------------
// One operation after the other
// ---------------------------------------------------------------------------

/// A compound request at the moment that an operation has come so far.
pub struct Moment {
    pub handler: CompoundHandler,
    pub run: Run,
    pub step: OpStep,
}

/// What an operation has come to.
pub open spec fn is_result(r: OpResult, op: Nfs4Op, result: Nfs4Result<Vec<u8>>) -> bool {
    &&& r.op == op
    &&& match result {
        Ok(data) => r.status == Nfs4Status::Success && r.data == data,
        Err(e) => r.status == e.status && r.data@.len() == 0,
    }
}

/// Whether an operation has gone well and the next one was begun.
pub open spec fn leads_to(m: Moment, n: Moment) -> bool {
    let op = Nfs4Op::of_code(be32_at(m.run.left));
    &&& m.step is Done
    &&& m.step->result is Ok
    &&& m.run.results.len() + 1 < m.run.op_count
    &&& m.run.left.len() >= 4
    &&& n.run.xid == m.run.xid
    &&& n.run.tag == m.run.tag
    &&& n.run.op_count == m.run.op_count
    &&& n.run.op == op
    &&& n.run.args == m.run.left.skip(4)
    &&& n.run.results.len() == m.run.results.len() + 1
    &&& n.run.results.drop_last() == m.run.results
    &&& is_result(n.run.results.last(), m.run.op, m.step->result)
    &&& n.handler.has_executed(
        &m.handler,
        op,
        m.run.left.skip(4),
        n.run.left,
        m.run.ctx,
        n.run.ctx,
        n.step,
    )
}

/// Whether each moment leads to the next.
pub open spec fn follow(trace: Seq<Moment>) -> bool {
    forall|i: int|
        #![trigger trace[i]]
        0 <= i < trace.len() - 1 ==> leads_to(trace[i], trace[i + 1])
}

proof fn follow_on(trace: Seq<Moment>, next: Moment)
    requires
        trace.len() > 0,
        follow(trace),
        leads_to(trace.last(), next),
    ensures
        follow(trace.push(next)),
{
    let more = trace.push(next);
    assert forall|i: int|
        #![trigger more[i]]
        0 <= i < more.len() - 1 implies leads_to(more[i], more[i + 1]) by {
        if i < trace.len() - 1 {
            assert(trace[i] == more[i]);
            assert(leads_to(trace[i], trace[i + 1]));
        }
    }
}

impl CompoundHandler {
    /// What it comes to that a request is answered: the slot that it ran in is free again, and
    /// keeps what the client is told.
    pub open spec fn has_answered(
        &self,
        before: &CompoundHandler,
        run: Run,
        results: Seq<OpResult>,
        out: RunStep<'_>,
    ) -> bool {
        &&& out is Done
        &&& if run.tag.len() < u32::MAX {
            &&& out->reply is Ok
            &&& out->reply->Ok_0@ == compound_bytes(run.xid, overall(results), run.tag, results)
            &&& *self == CompoundHandler { sessions: self.sessions, ..*before }
            &&& match (run.ctx.sessionid, run.ctx.slot_id) {
                (Some(id), Some(slot)) => exists|kept: Vec<u8>|
                    {
                        &&& #[trigger] self.sessions.has_kept(&before.sessions, id@, slot, kept)
                        &&& kept@ == answer_bytes(overall(results), run.tag, results)
                    },
                _ => self.sessions == before.sessions,
            }
        } else {
            out->reply == Err::<Vec<u8>, XdrError>(XdrError::InvalidData) && *self == *before
        }
    }

    /// What a request comes to whose last operation has run, with what all operations have come
    /// to: the next operation is not there, what a failed operation is asked with or what follows it
    /// cannot be read, or there is an answer.
    pub open spec fn has_ended(
        &self,
        m: Moment,
        result: Nfs4Result<Vec<u8>>,
        results: Seq<OpResult>,
        out: RunStep<'_>,
    ) -> bool {
        let left = (m.run.op_count - results.len()) as nat;
        &&& results.len() == m.run.results.len() + 1
        &&& results.drop_last() == m.run.results
        &&& is_result(results.last(), m.run.op, result)
        &&& if result is Ok && results.len() < m.run.op_count {
            &&& out is Done
            &&& out->reply == Err::<Vec<u8>, XdrError>(XdrError::UnexpectedEof)
            &&& *self == m.handler
        } else if result is Err && results.len() < m.run.op_count && rest_len(
            m.run.op,
            m.run.args,
            left,
        ) is Err {
            &&& out is Done
            &&& out->reply is Err
            &&& out->reply->Err_0 == rest_len(m.run.op, m.run.args, left)->Err_0
            &&& *self == m.handler
        } else {
            self.has_answered(&m.handler, m.run, results, out)
        }
    }

    /// What a moment comes to that leads to no other: a call, a request that was answered before,
    /// the end of all operations, one that fails, or a next one that is not there.
    pub open spec fn has_come_to(&self, m: Moment, out: RunStep<'_>) -> bool {
        match m.step {
            OpStep::Call { task, call } => {
                &&& *self == m.handler
                &&& out is Call
                &&& out->Call_run@ == m.run
                &&& out->task == task
                &&& out->call == call
            },
            OpStep::Block { read } => {
                &&& *self == m.handler
                &&& out is Block
                &&& out->Block_run@ == m.run
                &&& out->read == read
            },
            OpStep::Send { message } => {
                &&& *self == m.handler
                &&& out is Send
                &&& out->Send_run@ == m.run
                &&& out->message == message
            },
            OpStep::Wait { later } => {
                &&& *self == m.handler
                &&& out is Wait
                &&& out->Wait_run@ == m.run
                &&& out->later == later
            },
            OpStep::Replay { reply } => {
                &&& *self == m.handler
                &&& out is Done
                &&& out->reply is Ok
                &&& out->reply->Ok_0@ == reply_bytes(m.run.xid, reply@)
            },
            OpStep::Done { result } => {
                &&& m.run.results.len() + 1 < m.run.op_count && result is Ok ==> m.run.left.len()
                    < 4
                &&& exists|results: Seq<OpResult>| #[trigger] self.has_ended(m, result, results, out)
            },
        }
    }

    /// What a request comes to from a moment on: operations go well, one after the other, until
    /// one waits, fails or is the last.
    pub open spec fn has_run_on(
        &self,
        before: &CompoundHandler,
        run: Run,
        step: OpStep,
        out: RunStep<'_>,
    ) -> bool {
        exists|trace: Seq<Moment>|
            {
                &&& trace.len() > 0
                &&& trace[0] == (Moment { handler: *before, run, step })
                &&& #[trigger] follow(trace)
                &&& self.has_come_to(trace.last(), out)
            }
    }

    /// Answers a request.
    fn answer<'a>(&mut self, run: CompoundRun<'a>) -> (r: RunStep<'a>)
        requires
            old(self).wf(),
        ensures
            final(self).wf(),
            final(self).has_answered(old(self), run@, run.results@, r),
    {
        if run.tag.len() >= u32::MAX as usize {
            return RunStep::Done { reply: Err(XdrError::InvalidData) };
        }
        let n: usize = run.results.len();
        let status = if n == 0 {
            Nfs4Status::Success
        } else {
            run.results[n - 1].status
        };
        let mut out: Vec<u8> = Vec::new();
        put_head(&mut out, status, run.tag.as_slice(), n);
        put_results(&mut out, &run.results);
        assert(out@ =~= answer_bytes(status, run.tag@, run.results@));
        let reply = reply_to(run.xid, out.as_slice());
        if let (Some(id), Some(slot)) = (run.ctx.sessionid, run.ctx.slot_id) {
            let ghost before = self.sessions;
            let ghost kept = out;
            self.sessions.cache_reply(&id, slot, out);
            assert(self.sessions.has_kept(&before, id@, slot, kept));
        }
        RunStep::Done { reply: Ok(reply) }
    }

    /// Goes on with a request whose operation has come so far.
    pub fn go_on<'a>(&mut self, run: CompoundRun<'a>, step: OpStep) -> (r: RunStep<'a>)
        requires
            old(self).wf(),
        ensures
            final(self).wf(),
            final(self).has_run_on(old(self), run@, step, r),
    {
        let ghost first = Moment { handler: *self, run: run@, step };
        let ghost mut trace = seq![first];
        let mut cur = run;
        let mut at = step;
        loop
            invariant
                self.wf(),
                trace.len() > 0,
                trace[0] == first,
                first == (Moment { handler: *old(self), run: run@, step }),
                follow(trace),
                trace.last() == (Moment { handler: *self, run: cur@, step: at }),
            decreases cur.op_count - cur.results@.len(),
        {
            let ghost m = Moment { handler: *self, run: cur@, step: at };
            let result = match at {
                OpStep::Call { task, call } => {
                    return RunStep::Call { run: cur, task, call };
                },
                OpStep::Block { read } => {
                    return RunStep::Block { run: cur, read };
                },
                OpStep::Send { message } => {
                    return RunStep::Send { run: cur, message };
                },
                OpStep::Wait { later } => {
                    return RunStep::Wait { run: cur, later };
                },
                OpStep::Replay { reply } => {
                    return RunStep::Done { reply: Ok(reply_to(cur.xid, reply.as_slice())) };
                },
                OpStep::Done { result } => result,
            };
            let ghost got = result;
            let failed = result.is_err();
            let (status, data) = match result {
                Ok(data) => (Nfs4Status::Success, data),
                Err(e) => (e.status, Vec::new()),
            };
            cur.results.push(OpResult { op: cur.op, status, data });
            let ghost results = cur.results@;
            assert(results.drop_last() =~= m.run.results);
            assert(is_result(results.last(), m.run.op, got));
            let n: usize = cur.results.len();
            if failed && n < cur.op_count {
                let mut ahead = Reader { rest: cur.args.rest };
                if let Err(e) = skip_rest(cur.op, &mut ahead, cur.op_count - n) {
                    let r = RunStep::Done { reply: Err(e) };
                    assert(self.has_ended(m, got, results, r));
                    assert(self.has_come_to(m, r));
                    return r;
                }
            }
            if failed || n >= cur.op_count {
                let r = self.answer(cur);
                assert(self.has_answered(&m.handler, m.run, results, r));
                assert(self.has_ended(m, got, results, r));
                assert(self.has_come_to(m, r));
                return r;
            }
            let code: u32 = match cur.input.read_u32() {
                Ok(c) => c,
                Err(e) => {
                    let r = RunStep::Done { reply: Err(e) };
                    assert(self.has_ended(m, got, results, r));
                    assert(self.has_come_to(m, r));
                    return r;
                },
            };
            cur.op = Nfs4Op::from_code(code);
            cur.args = Reader { rest: cur.input.rest };
            at = self.execute_operation(cur.op, &mut cur.input, &mut cur.ctx);
            proof {
                let next = Moment { handler: *self, run: cur@, step: at };
                assert(leads_to(m, next));
                follow_on(trace, next);
                trace = trace.push(next);
            }
        }
    }

    /// Begins the next operation of a request, or answers it where there is none.
    pub open spec fn has_begun_run(
        &self,
        before: &CompoundHandler,
        run: Run,
        out: RunStep<'_>,
    ) -> bool {
        if run.results.len() >= run.op_count {
            self.has_answered(before, run, run.results, out)
        } else if run.left.len() < 4 {
            &&& out is Done
            &&& out->reply == Err::<Vec<u8>, XdrError>(XdrError::UnexpectedEof)
            &&& *self == *before
        } else {
            let op = Nfs4Op::of_code(be32_at(run.left));
            exists|mid: CompoundHandler, left: Seq<u8>, ctx: CompoundContext, step: OpStep|
                {
                    &&& #[trigger] mid.has_executed(
                        before,
                        op,
                        run.left.skip(4),
                        left,
                        run.ctx,
                        ctx,
                        step,
                    )
                    &&& self.has_run_on(
                        &mid,
                        Run { left, op, args: run.left.skip(4), ctx, ..run },
                        step,
                        out,
                    )
                }
        }
    }

    /// Begins to run a request.
    fn begin_run<'a>(&mut self, run: CompoundRun<'a>) -> (r: RunStep<'a>)
        requires
            old(self).wf(),
        ensures
            final(self).wf(),
            final(self).has_begun_run(old(self), run@, r),
    {
        let mut run = run;
        let ghost first = run@;
        let ghost before = *self;
        if run.results.len() >= run.op_count {
            return self.answer(run);
        }
        let code: u32 = match run.input.read_u32() {
            Ok(c) => c,
            Err(e) => {
                return RunStep::Done { reply: Err(e) };
            },
        };
        run.op = Nfs4Op::from_code(code);
        run.args = Reader { rest: run.input.rest };
        let step = self.execute_operation(run.op, &mut run.input, &mut run.ctx);
        let ghost mid = *self;
        assert(mid.has_executed(
            &before,
            run@.op,
            first.left.skip(4),
            run@.left,
            first.ctx,
            run@.ctx,
            step,
        ));
        assert(run@ == Run {
            left: run@.left,
            op: run@.op,
            args: first.left.skip(4),
            ctx: run@.ctx,
            ..first
        });
        self.go_on(run, step)
    }

    /// Goes on with a request whose call is over.
    pub fn resume_compound<'a>(
        &mut self,
        run: CompoundRun<'a>,
        task: OpTask,
        answer: Nfs4Result<FsAnswer>,
    ) -> (r: RunStep<'a>)
        requires
            old(self).wf(),
        ensures
            final(self).wf(),
            exists|mid: CompoundHandler, ctx: CompoundContext, step: OpStep|
                {
                    &&& #[trigger] mid.has_resumed(
                        old(self),
                        task,
                        answer,
                        run@.ctx,
                        ctx,
                        step,
                    )
                    &&& final(self).has_run_on(&mid, (Run { ctx, ..run@ }), step, r)
                },
    {
        let mut run = run;
        let ghost first = run@;
        let ghost before = *self;
        let step = self.resume_operation(task, answer, &mut run.ctx);
        let ghost mid = *self;
        assert(mid.has_resumed(&before, task, answer, first.ctx, run@.ctx, step));
        assert(run@ == Run { ctx: run@.ctx, ..first });
        self.go_on(run, step)
    }

    /// Goes on with a request that has read a block.
    pub fn resume_block<'a>(
        &mut self,
        run: CompoundRun<'a>,
        read: BlockRead,
        got: Nfs4Result<Vec<u8>>,
    ) -> (r: RunStep<'a>)
        requires
            old(self).wf(),
        ensures
            final(self).wf(),
            exists|result: Nfs4Result<Vec<u8>>|
                {
                    &&& #[trigger] Self::block_read_done_result(read, got, result)
                    &&& final(self).has_run_on(old(self), run@, (OpStep::Done { result }), r)
                },
    {
        let result = Self::block_read_done(read, got);
        assert(Self::block_read_done_result(read, got, result));
        self.go_on(run, OpStep::Done { result })
    }

    /// How an operation ends that has called a client back: its own client has to come again.
    /// Where the callback could not be sent, it is taken back, and the operation fails by that.
    pub open spec fn has_called_back(
        &self,
        before: &CompoundHandler,
        xid: u32,
        sent: bool,
        step: OpStep,
    ) -> bool {
        if sent {
            *self == *before && gives_up(step, Nfs4Status::Delay)
        } else {
            self.has_failed_to_send(before, xid) && gives_up(step, Nfs4Status::CbPathDown)
        }
    }

    /// Goes on with a request that has called a client back.
    pub fn resume_sent<'a>(&mut self, run: CompoundRun<'a>, xid: u32, sent: bool) -> (r: RunStep<
        'a,
    >)
        requires
            old(self).wf(),
        ensures
            final(self).wf(),
            exists|mid: CompoundHandler, step: OpStep|
                {
                    &&& #[trigger] mid.has_called_back(old(self), xid, sent, step)
                    &&& final(self).has_run_on(&mid, run@, step, r)
                },
    {
        let ghost before = *self;
        let step = if sent {
            give_up(Nfs4Status::Delay)
        } else {
            self.callback_not_sent(xid);
            give_up(Nfs4Status::CbPathDown)
        };
        let ghost mid = *self;
        assert(mid.has_called_back(&before, xid, sent, step));
        self.go_on(run, step)
    }

    /// Goes on with a request that has waited for a place for another callback.
    pub fn resume_waited<'a>(&mut self, run: CompoundRun<'a>, task: OpTask) -> (r: RunStep<'a>)
        requires
            old(self).wf(),
        ensures
            final(self).wf(),
            exists|mid: CompoundHandler, ctx: CompoundContext, step: OpStep|
                {
                    &&& #[trigger] mid.has_resumed(
                        old(self),
                        task,
                        Ok(FsAnswer::Done),
                        run@.ctx,
                        ctx,
                        step,
                    )
                    &&& final(self).has_run_on(&mid, (Run { ctx, ..run@ }), step, r)
                },
    {
        self.resume_compound(run, task, Ok(FsAnswer::Done))
    }

    // -----------------------------------------------------------------------
    // Calls
    // -----------------------------------------------------------------------

    /// What a request comes to whose tag, minor version and number of operations are known.
    pub open spec fn has_started(
        &self,
        before: &CompoundHandler,
        xid: u32,
        head: CompoundHead,
        auth: auth_unix,
        left: Seq<u8>,
        out: RunStep<'_>,
    ) -> bool {
        let none = Seq::<OpResult>::empty();
        if head.minor_version > NFS4_MINOR_VERSION {
            &&& out is Done
            &&& out->reply is Ok
            &&& out->reply->Ok_0@ == compound_bytes(
                xid,
                Nfs4Status::MinorVersMismatch,
                head.tag@,
                none,
            )
            &&& *self == *before
        } else if head.op_count > MAX_COMPOUND_OPS {
            &&& out is Done
            &&& out->reply is Ok
            &&& out->reply->Ok_0@ == compound_bytes(xid, Nfs4Status::TooManyOps, head.tag@, none)
            &&& *self == *before
        } else {
            exists|run: Run|
                {
                    &&& #[trigger] self.has_begun_run(before, run, out)
                    &&& run.xid == xid
                    &&& run.tag == head.tag@
                    &&& run.left == left
                    &&& run.op_count == head.op_count
                    &&& run.ctx.is_new(head.minor_version)
                    &&& run.ctx.auth == auth
                    &&& run.results == none
                }
        }
    }

    /// Begins a compound request: its tag comes first, then the minor version and the number of
    /// operations.
    pub fn handle_compound<'a>(&mut self, xid: u32, input: Reader<'a>, auth: auth_unix) -> (r: RunStep<
        'a,
    >)
        requires
            old(self).wf(),
        ensures
            final(self).wf(),
            final(self).has_handled_compound(old(self), xid, input@, auth, r),
    {
        let mut input = input;
        let ghost s = input@;
        let head = match CompoundHead::decode(&mut input) {
            Ok(h) => h,
            Err(e) => {
                return RunStep::Done { reply: Err(e) };
            },
        };
        assert(head.decodes_to(s));
        let none: Vec<OpResult> = Vec::new();
        assert(none@ =~= Seq::<OpResult>::empty());
        if head.minor_version > NFS4_MINOR_VERSION {
            let mut out: Vec<u8> = Vec::new();
            put_head(&mut out, Nfs4Status::MinorVersMismatch, head.tag.as_slice(), 0);
            assert(out@ =~= answer_bytes(Nfs4Status::MinorVersMismatch, head.tag@, none@));
            return RunStep::Done { reply: Ok(reply_to(xid, out.as_slice())) };
        }
        if head.op_count as usize > MAX_COMPOUND_OPS {
            let mut out: Vec<u8> = Vec::new();
            put_head(&mut out, Nfs4Status::TooManyOps, head.tag.as_slice(), 0);
            assert(out@ =~= answer_bytes(Nfs4Status::TooManyOps, head.tag@, none@));
            return RunStep::Done { reply: Ok(reply_to(xid, out.as_slice())) };
        }
        let mut ctx = CompoundContext::with_minor_version(head.minor_version);
        ctx.auth = auth;
        let run = CompoundRun {
            xid,
            tag: head.tag,
            input,
            op_count: head.op_count as usize,
            op: Nfs4Op::Illegal,
            args: Reader { rest: &[] },
            ctx,
            results: none,
        };
        let ghost first = run@;
        let r = self.begin_run(run);
        assert(self.has_begun_run(old(self), first, r));
        r
    }

    /// What a compound request comes to.
    pub open spec fn has_handled_compound(
        &self,
        before: &CompoundHandler,
        xid: u32,
        s: Seq<u8>,
        auth: auth_unix,
        out: RunStep<'_>,
    ) -> bool {
        match CompoundHead::decoded_len(s) {
            Err(e) => {
                &&& out is Done
                &&& out->reply == Err::<Vec<u8>, XdrError>(e)
                &&& *self == *before
            },
            Ok(n) => exists|head: CompoundHead| #[trigger]
                head.decodes_to(s) && self.has_started(
                    before,
                    xid,
                    head,
                    auth,
                    s.skip(n as int),
                    out,
                ),
        }
    }

    /// What a call of the file protocol comes to: calls of another version are told the version,
    /// the null procedure does nothing, and procedures that are not known are not available.
    pub open spec fn has_handled_call(
        &self,
        before: &CompoundHandler,
        xid: u32,
        vers: u32,
        proc: u32,
        s: Seq<u8>,
        auth: auth_unix,
        out: RunStep<'_>,
    ) -> bool {
        if vers == NFS4_VERSION && proc == 1 {
            self.has_handled_compound(before, xid, s, auth, out)
        } else {
            &&& *self == *before
            &&& out is Done
            &&& out->reply is Ok
            &&& out->reply->Ok_0@ == accepted_bytes(
                xid,
                if vers != NFS4_VERSION {
                    accept_body::PROG_MISMATCH(
                        mismatch_info { low: NFS4_VERSION, high: NFS4_VERSION },
                    )
                } else if proc == 0 {
                    accept_body::SUCCESS
                } else {
                    accept_body::PROC_UNAVAIL
                },
            )
        }
    }

    /// Begins a call of the file protocol.
    pub fn handle_nfs4<'a>(
        &mut self,
        xid: u32,
        call: &call_body,
        input: Reader<'a>,
        auth: auth_unix,
    ) -> (r: RunStep<'a>)
        requires
            old(self).wf(),
        ensures
            final(self).wf(),
            final(self).has_handled_call(
                old(self),
                xid,
                call.vers,
                call.proc,
                input@,
                auth,
                r,
            ),
    {
        let data = if call.vers != NFS4_VERSION {
            accept_body::PROG_MISMATCH(mismatch_info { low: NFS4_VERSION, high: NFS4_VERSION })
        } else if call.proc == 0 {
            accept_body::SUCCESS
        } else if call.proc == 1 {
            return self.handle_compound(xid, input, auth);
        } else {
            accept_body::PROC_UNAVAIL
        };
        let ghost d = data;
        let mut out: Vec<u8> = Vec::new();
        put_accepted(&mut out, xid, data);
        assert(out@ =~= accepted_bytes(xid, d));
        RunStep::Done { reply: Ok(out) }
    }
}

/// What a compound request starts with.
#[derive(Debug)]
pub struct CompoundHead {
    pub tag: Vec<u8>,
    pub minor_version: u32,
    pub op_count: u32,
}

impl Decode for CompoundHead {
    open spec fn decoded_len(s: Seq<u8>) -> Result<nat, XdrError> {
        let n = Vec::<u8>::decoded_len(s);
        let n = after::<u32>(n, s);
        let n = after::<u32>(n, s);
        n
    }

    open spec fn decodes_to(&self, s: Seq<u8>) -> bool {
        let n1 = Vec::<u8>::decoded_len(s);
        let n2 = after::<u32>(n1, s);
        &&& self.tag.decodes_to(s)
        &&& self.minor_version.decodes_to(rest(n1, s))
        &&& self.op_count.decodes_to(rest(n2, s))
    }

    fn decode(src: &mut Reader<'_>) -> (r: Result<Self, XdrError>) {
        broadcast use crate::bytes::skip_skip;

        let tag = Vec::<u8>::decode(src)?;
        let minor_version = u32::decode(src)?;
        let op_count = u32::decode(src)?;
        Ok(CompoundHead { tag, minor_version, op_count })
    }
}

// ---------------------------------------------------------------------------
// Laws
// ---------------------------------------------------------------------------

/// Whether all operations that have run went well.
pub open spec fn all_well(results: Seq<OpResult>) -> bool {
    forall|j: int| 0 <= j < results.len() ==> (#[trigger] results[j]).status == Nfs4Status::Success
}

/// Operations run one after the other, and no more of them than the request holds; one that is
/// not the last to run went well.
pub proof fn law_operations_run_until_one_fails(trace: Seq<Moment>)
    requires
        trace.len() > 0,
        follow(trace),
        all_well(trace[0].run.results),
        trace[0].run.results.len() < trace[0].run.op_count,
    ensures
        all_well(trace.last().run.results),
        trace.last().run.results.len() == trace[0].run.results.len() + trace.len() - 1,
        trace.last().run.results.len() < trace[0].run.op_count,
        trace.last().run.op_count == trace[0].run.op_count,
    decreases trace.len(),
{
    if trace.len() > 1 {
        let less = trace.drop_last();
        assert(follow(less)) by {
            assert forall|i: int|
                #![trigger less[i]]
                0 <= i < less.len() - 1 implies leads_to(less[i], less[i + 1]) by {
                assert(trace[i] == less[i]);
                assert(leads_to(trace[i], trace[i + 1]));
            }
        }
        law_operations_run_until_one_fails(less);
        let m = trace[trace.len() - 2];
        let n = trace.last();
        assert(leads_to(m, n));
        assert(less.last() == m);
        assert forall|j: int| 0 <= j < n.run.results.len() implies (
        #[trigger] n.run.results[j]).status == Nfs4Status::Success by {
            if j < m.run.results.len() {
                assert(n.run.results[j] == n.run.results.drop_last()[j]);
                assert(m.run.results[j].status == Nfs4Status::Success);
            }
        }
    }
}

/// Whether a reply tells what all operations have come to.
pub open spec fn tells(reply: Seq<u8>, run: Run, results: Seq<OpResult>) -> bool {
    reply == compound_bytes(run.xid, overall(results), run.tag, results)
}

/// A reply tells of each operation that has run; its status is that of the last one, and no other
/// one failed.
pub proof fn law_reply_tells_what_failed(h: CompoundHandler, m: Moment, out: RunStep<'_>)
    requires
        m.step is Done,
        all_well(m.run.results),
        m.run.results.len() < m.run.op_count,
        h.has_come_to(m, out),
        out->reply is Ok,
    ensures
        exists|results: Seq<OpResult>|
            {
                &&& #[trigger] tells(out->reply->Ok_0@, m.run, results)
                &&& results.len() == m.run.results.len() + 1
                &&& results.len() <= m.run.op_count
                &&& all_well(results.drop_last())
                &&& is_result(results.last(), m.run.op, m.step->result)
            },
{
    let results = choose|results: Seq<OpResult>| #[trigger]
        h.has_ended(m, m.step->result, results, out);
    assert(h.has_ended(m, m.step->result, results, out));
    assert(tells(out->reply->Ok_0@, m.run, results));
}

/// A request that was answered is not run again: when it is repeated, naming its slot ends it with
/// what the client was told before, under the number of the repeated call. No operation behind that
/// runs, and nothing changes.
pub proof fn law_repeated_request_is_answered_alike(
    running: CompoundHandler,
    answered: CompoundHandler,
    run: Run,
    results: Seq<OpResult>,
    first: RunStep<'_>,
    args: SequenceArgs,
    again: CompoundHandler,
    ctx: CompoundContext,
    ctx2: CompoundContext,
    run2: Run,
    step: OpStep,
    end: CompoundHandler,
    second: RunStep<'_>,
)
    requires
        answered.has_answered(&running, run, results, first),
        first->reply is Ok,
        run.ctx.sessionid == Some(args.sessionid),
        run.ctx.slot_id == Some(args.slotid),
        running.sessions.has_slot(key16(args.sessionid@), args.slotid),
        running.sessions.sessions@[key16(args.sessionid@)].slots@[args.slotid as int].sequence
            == args.sequenceid,
        again.has_sequenced(&answered, args, ctx, ctx2, step),
        end.has_run_on(&again, run2, step, second),
    ensures
        first->reply->Ok_0@ == reply_bytes(
            run.xid,
            answer_bytes(overall(results), run.tag, results),
        ),
        second is Done,
        second->reply is Ok,
        second->reply->Ok_0@ == reply_bytes(
            run2.xid,
            answer_bytes(overall(results), run.tag, results),
        ),
        run2.xid == run.xid ==> second->reply->Ok_0@ == first->reply->Ok_0@,
        end == again,
        again.same_files(&answered),
        again.clients == answered.clients,
        again.sessions.has_replaced_slot(
            &answered.sessions,
            key16(args.sessionid@),
            args.slotid,
            answered.sessions.sessions@[key16(args.sessionid@)].slots@[args.slotid as int],
        ),
{
    let k = key16(args.sessionid@);
    let kept = choose|kept: Vec<u8>|
        {
            &&& #[trigger] answered.sessions.has_kept(
                &running.sessions,
                args.sessionid@,
                args.slotid,
                kept,
            )
            &&& kept@ == answer_bytes(overall(results), run.tag, results)
        };
    assert(answered.sessions.has_kept(&running.sessions, args.sessionid@, args.slotid, kept));
    assert(answered.sessions.admission(k, args.slotid, args.sequenceid) == Admission::Replay(kept@));
    let trace = choose|trace: Seq<Moment>|
        {
            &&& trace.len() > 0
            &&& trace[0] == (Moment { handler: again, run: run2, step })
            &&& #[trigger] follow(trace)
            &&& end.has_come_to(trace.last(), second)
        };
    if trace.len() > 1 {
        assert(leads_to(trace[0], trace[1]));
    }
}

} // verus!
