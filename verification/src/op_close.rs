//! Closing files, and giving up part of what was opened.

use crate::args::{CloseArgs, OpenConfirmArgs, OpenDowngradeArgs};
use crate::bytes::{be32, key12, zeros, Reader};
use crate::compound::{CompoundContext, CompoundHandler};
use crate::error::{failure, fails_with, Nfs4Error, Nfs4Result, Nfs4Status};
use crate::open::{open_key, OpenState};
use crate::ops::{
    answers_with, fetch, fetches, give_up, gives, gives_up, has_read, pass_on, read_args,
    stateid_reply, stop, stops, OpStep, OpTask,
};
use crate::storage::{FsAnswer, FsCall};
use crate::types::{FileType, Stateid4};
use crate::xdr::{Decode, XDR};
use vstd::prelude::*;

verus! {

broadcast use vstd::std_specs::hash::group_hash_axioms;

/// What goes by no state any more, where there are sessions.
pub open spec fn no_state() -> Seq<u8> {
    be32(u32::MAX) + zeros(12)
}

/// A stateid with the next number; zero is left out.
pub open spec fn next_number(sid: Stateid4) -> Stateid4 {
    Stateid4 {
        seqid: if sid.seqid == u32::MAX {
            1
        } else {
            (sid.seqid + 1) as u32
        },
        other: sid.other,
    }
}

impl CompoundHandler {
    /// What closing begins with: the client gives back what it has locked of the file, and the
    /// state is gone.
    pub open spec fn has_begun_to_close(
        &self,
        before: &CompoundHandler,
        stateid: Stateid4,
        step: OpStep,
    ) -> bool {
        match before.opens.fault(stateid) {
            Some(st) => gives_up(step, st) && *self == *before,
            None => {
                let k = key12(stateid.other@);
                let s = before.opens.states@[k];
                &&& *self == CompoundHandler { opens: self.opens, locks: self.locks, ..*before }
                &&& self.opens.states@ == before.opens.states@.remove(k)
                &&& self.opens.file_owner_state@ == before.opens.file_owner_state@.remove(
                    open_key(s.clientid, s.fileid, s.owner_val@),
                )
                &&& self.opens.same_rest(&before.opens)
                &&& self.locks.has_released_file(&before.locks, s.clientid, s.fileid)
                &&& step == (OpStep::Call {
                    task: OpTask::Closing { stateid },
                    call: FsCall::Close { fileid: s.fileid },
                })
            },
        }
    }

    /// Begins to close a file.
    pub fn op_close(&mut self, args: CloseArgs) -> (r: OpStep)
        requires
            old(self).wf(),
        ensures
            final(self).wf(),
            final(self).has_begun_to_close(old(self), args.stateid, r),
    {
        let ghost before = *self;
        let (clientid, fileid) = match self.opens.verify_stateid(&args.stateid) {
            Err(e) => {
                return pass_on(e);
            },
            Ok(s) => (s.clientid, s.fileid),
        };
        self.locks.release_file(clientid, fileid);
        match self.opens.close(&args.stateid) {
            Err(e) => pass_on(e),
            Ok(closed) => OpStep::Call {
                task: OpTask::Closing { stateid: args.stateid },
                call: FsCall::Close { fileid: closed.fileid },
            },
        }
    }

    /// The storage has closed the file. What the client is told goes by no state.
    pub open spec fn closing_done_step(
        ctx: CompoundContext,
        ctx2: CompoundContext,
        stateid: Stateid4,
        answer: Nfs4Result<FsAnswer>,
        step: OpStep,
    ) -> bool {
        match answer {
            Ok(_) => if ctx.minor_version > 0 {
                &&& answers_with(step, no_state())
                &&& ctx2 == (CompoundContext { current_stateid: None, ..ctx })
            } else {
                &&& answers_with(step, next_number(stateid).encoding())
                &&& ctx2 == (CompoundContext {
                    current_stateid: Some(next_number(stateid)),
                    ..ctx
                })
            },
            Err(_) => stops(answer, step) && ctx2 == ctx,
        }
    }

    /// The storage has closed the file. What the client is told goes by no state.
    pub fn closing_done(
        ctx: &mut CompoundContext,
        stateid: Stateid4,
        answer: Nfs4Result<FsAnswer>,
    ) -> (r: OpStep)
        ensures
            Self::closing_done_step(*old(ctx), *final(ctx), stateid, answer, r),
    {
        if answer.is_err() {
            return stop(answer);
        }
        if ctx.minor_version > 0 {
            ctx.current_stateid = None;
            let none = Stateid4 { seqid: u32::MAX, other: [0; 12] };
            assert(none.encoding() =~= no_state());
            OpStep::Done { result: stateid_reply(&none) }
        } else {
            let next = Stateid4 {
                seqid: if stateid.seqid == u32::MAX {
                    1
                } else {
                    stateid.seqid + 1
                },
                other: stateid.other,
            };
            ctx.current_stateid = Some(next);
            OpStep::Done { result: stateid_reply(&next) }
        }
    }

    /// Begins to give up part of what a file was opened for.
    pub open spec fn open_downgrade_step(
        &self,
        ctx: CompoundContext,
        args: OpenDowngradeArgs,
        step: OpStep,
    ) -> bool {
        match self.target(ctx) {
            Err(st) => gives_up(step, st),
            Ok(fileid) => fetches(step, OpTask::DowngradeCheck { args }, fileid),
        }
    }

    /// Begins to give up part of what a file was opened for.
    pub fn op_open_downgrade(&self, ctx: &CompoundContext, args: OpenDowngradeArgs) -> (r: OpStep)
        ensures
            self.open_downgrade_step(*ctx, args, r),
    {
        match self.current_file(ctx) {
            Err(e) => pass_on(e),
            Ok(fileid) => fetch(OpTask::DowngradeCheck { args }, fileid),
        }
    }

    /// What giving up part of what a file was opened for comes to. More than was had cannot be
    /// kept.
    pub open spec fn has_downgraded(
        &self,
        before: &CompoundHandler,
        args: OpenDowngradeArgs,
        step: OpStep,
    ) -> bool {
        let k = key12(args.stateid.other@);
        let s = before.opens.states@[k];
        match before.opens.fault(args.stateid) {
            Some(st) => gives_up(step, st) && *self == *before,
            None => if s.share_access & args.access != args.access || s.share_deny & args.deny
                != args.deny {
                gives_up(step, Nfs4Status::Inval) && *self == *before
            } else {
                &&& self.same_but_opens(before)
                &&& self.opens.has_replaced(
                    &before.opens,
                    k,
                    s.downgraded(args.access, args.deny),
                )
                &&& answers_with(
                    step,
                    (Stateid4 {
                        seqid: s.seqid.wrapping_add(1),
                        other: s.stateid.other,
                    }).encoding(),
                )
            },
        }
    }

    /// The kind of the file is known.
    pub open spec fn downgrade_check_step(
        &self,
        before: &CompoundHandler,
        args: OpenDowngradeArgs,
        answer: Nfs4Result<FsAnswer>,
        step: OpStep,
    ) -> bool {
        match answer {
            Ok(FsAnswer::Status(s)) => if s.file_type != FileType::File {
                gives_up(step, Nfs4Status::Inval) && *self == *before
            } else {
                self.has_downgraded(before, args, step)
            },
            _ => stops(answer, step) && *self == *before,
        }
    }

    /// The kind of the file is known.
    pub fn downgrade_check(&mut self, args: OpenDowngradeArgs, answer: Nfs4Result<FsAnswer>) -> (r:
        OpStep)
        requires
            old(self).wf(),
        ensures
            final(self).wf(),
            final(self).downgrade_check_step(old(self), args, answer, r),
    {
        match answer {
            Ok(FsAnswer::Status(s)) => {
                if s.file_type != FileType::File {
                    return give_up(Nfs4Status::Inval);
                }
            },
            _ => {
                return stop(answer);
            },
        }
        match self.opens.verify_stateid(&args.stateid) {
            Err(e) => {
                return pass_on(e);
            },
            Ok(s) => {
                if s.get_access() & args.access != args.access || s.get_deny() & args.deny
                    != args.deny {
                    return give_up(Nfs4Status::Inval);
                }
            },
        }
        match self.opens.downgrade(&args.stateid, args.access, args.deny) {
            None => give_up(Nfs4Status::BadStateid),
            Some(sid) => OpStep::Done { result: stateid_reply(&sid) },
        }
    }

    /// What confirming comes to that a file was opened: it can be confirmed once.
    pub open spec fn has_confirmed(
        &self,
        before: &CompoundHandler,
        ctx: CompoundContext,
        args: OpenConfirmArgs,
        r: Nfs4Result<Vec<u8>>,
    ) -> bool {
        match before.target(ctx) {
            Err(st) => fails_with(r, st) && *self == *before,
            Ok(fileid) => match before.opens.named(args.stateid) {
                None => fails_with(r, Nfs4Status::BadStateid) && *self == *before,
                Some(k) => {
                    let s = before.opens.states@[k];
                    if s.fileid != fileid || s.confirmed {
                        fails_with(r, Nfs4Status::BadStateid) && *self == *before
                    } else {
                        &&& self.same_but_opens(before)
                        &&& self.opens.has_replaced(
                            &before.opens,
                            k,
                            OpenState { confirmed: true, ..s.counting() },
                        )
                        &&& gives(
                            r,
                            (Stateid4 {
                                seqid: s.seqid.wrapping_add(1),
                                other: s.stateid.other,
                            }).encoding(),
                        )
                    }
                },
            },
        }
    }

    /// Confirms that a file was opened.
    pub fn confirm_open(&mut self, ctx: &CompoundContext, args: OpenConfirmArgs) -> (r: Nfs4Result<
        Vec<u8>,
    >)
        requires
            old(self).wf(),
        ensures
            final(self).wf(),
            final(self).has_confirmed(old(self), *ctx, args, r),
    {
        let fileid = self.current_file(ctx)?;
        match self.opens.get_state(&args.stateid) {
            None => {
                return failure(Nfs4Status::BadStateid);
            },
            Some(s) => {
                if s.fileid != fileid || s.is_confirmed() {
                    return failure(Nfs4Status::BadStateid);
                }
            },
        }
        match self.opens.count_change(&args.stateid, true) {
            None => failure(Nfs4Status::BadStateid),
            Some(sid) => stateid_reply(&sid),
        }
    }

    /// What comes of confirming whose arguments start `s`. There is nothing to confirm where there
    /// are sessions.
    pub open spec fn open_confirm_result(
        &self,
        before: &CompoundHandler,
        s: Seq<u8>,
        left: Seq<u8>,
        ctx: CompoundContext,
        r: Nfs4Result<Vec<u8>>,
    ) -> bool {
        if ctx.minor_version > 0 {
            &&& fails_with(r, Nfs4Status::Notsupp)
            &&& *self == *before
            &&& left == s
        } else {
            exists|got: Nfs4Result<OpenConfirmArgs>|
                {
                    &&& #[trigger] has_read::<OpenConfirmArgs>(s, left, got)
                    &&& match got {
                        Ok(args) => self.has_confirmed(before, ctx, args, r),
                        Err(e) => r == Err::<Vec<u8>, Nfs4Error>(e) && *self == *before,
                    }
                }
        }
    }

    /// Confirms that a file was opened. There is nothing to confirm where there are sessions.
    pub fn op_open_confirm(&mut self, input: &mut Reader<'_>, ctx: &CompoundContext) -> (r:
        Nfs4Result<Vec<u8>>)
        requires
            old(self).wf(),
        ensures
            final(self).wf(),
            final(self).open_confirm_result(old(self), old(input)@, final(input)@, *ctx, r),
    {
        if ctx.minor_version > 0 {
            return failure(Nfs4Status::Notsupp);
        }
        let ghost s = input@;
        let got = read_args::<OpenConfirmArgs>(input);
        assert(has_read::<OpenConfirmArgs>(s, input@, got));
        match got {
            Ok(args) => self.confirm_open(ctx, args),
            Err(e) => Err(e),
        }
    }

    /// What giving a delegation back comes to.
    pub open spec fn has_given_delegation_back(
        &self,
        before: &CompoundHandler,
        stateid: Stateid4,
        r: Nfs4Result<Vec<u8>>,
    ) -> bool {
        let k = key12(stateid.other@);
        let d = before.delegations;
        &&& *self == CompoundHandler { delegations: self.delegations, ..*before }
        &&& self.delegations.next_stateid == d.next_stateid
        &&& self.delegations.same_rest(&d)
        &&& self.delegations.stateid_to_file@ == d.stateid_to_file@.remove(k)
        &&& if d.stateid_to_file@.contains_key(k) && d.delegations@.contains_key(
            d.stateid_to_file@[k],
        ) {
            &&& gives(r, Seq::empty())
            &&& self.delegations.delegations@ == d.delegations@.remove(d.stateid_to_file@[k])
        } else {
            &&& fails_with(r, Nfs4Status::BadStateid)
            &&& self.delegations.delegations@ == d.delegations@
        }
    }

    /// Gives a delegation back.
    pub fn op_delegreturn(&mut self, stateid: &Stateid4) -> (r: Nfs4Result<Vec<u8>>)
        requires
            old(self).wf(),
        ensures
            final(self).wf(),
            final(self).has_given_delegation_back(old(self), *stateid, r),
    {
        self.delegations.return_delegation(stateid)?;
        Ok(Vec::new())
    }
}

/// What asking for the named attributes of a file comes to: there are none.
pub open spec fn openattr_result(s: Seq<u8>, r: Nfs4Result<Vec<u8>>) -> bool {
    if u32::decoded_len(s) is Ok {
        fails_with(r, Nfs4Status::Notsupp)
    } else {
        fails_with(r, Nfs4Status::Io)
    }
}

/// Asks for the named attributes of a file.
pub fn op_openattr(input: &mut Reader<'_>) -> (r: Nfs4Result<Vec<u8>>)
    ensures
        openattr_result(old(input)@, r),
        u32::decoded_len(old(input)@) is Ok ==> final(input)@ == old(input)@.skip(4),
{
    let _createdir: u32 = match read_args::<u32>(input) {
        Ok(v) => v,
        Err(e) => return Err(e),
    };
    failure(Nfs4Status::Notsupp)
}

// ---------------------------------------------------------------------------
// Laws
// ---------------------------------------------------------------------------

/// What went by the id of a file goes by no state once the file was closed.
pub proof fn law_closed_file_is_not_open(
    before: CompoundHandler,
    after: CompoundHandler,
    stateid: Stateid4,
    again: u32,
    step: OpStep,
)
    requires
        after.has_begun_to_close(&before, stateid, step),
        before.opens.fault(stateid) is None,
    ensures
        after.opens.fault(Stateid4 { seqid: again, ..stateid }) == Some(Nfs4Status::BadStateid),
{
}

/// Closing a file leaves all other open files as they are.
pub proof fn law_closing_leaves_others_open(
    before: CompoundHandler,
    after: CompoundHandler,
    stateid: Stateid4,
    other: Stateid4,
    step: OpStep,
)
    requires
        after.has_begun_to_close(&before, stateid, step),
        key12(other.other@) != key12(stateid.other@),
    ensures
        after.opens.fault(other) == before.opens.fault(other),
{
}

} // verus!
